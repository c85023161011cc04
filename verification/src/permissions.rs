//! Permission manager: every tool call passes through here.
//!
//! Rules in priority order:
//! 1. unknown tools fail closed;
//! 2. `sudo` is always denied;
//! 3. destructive shell commands and `git push` need at least
//!    confirmation, even when the shell policy is `allow`;
//! 4. otherwise the configured `allow | ask | deny` applies.
//!
//! A single-use grant turns one `ask` into `allow` for an exact
//! tool + target; grants never override a denial.
use vstd::prelude::*;

use crate::config::{PermissionDecision, PermissionsConfig};
use crate::text::{
    chars_eq, chars_eq_ignore_ascii_case, chars_of, contains_chars, lowercase_chars, split_chars,
    split_whitespace_chars, starts_with_chars, str_eq, trim_chars, trim_start_chars, CharClass,
};
use crate::textmap::TextMap;

verus! {

/// Risk level a tool declares.
#[derive(Debug, Clone, Copy, PartialEq, Eq, Structural)]
pub enum RiskLevel {
    Safe,
    Moderate,
    Dangerous,
}

/// A request to execute a tool. For shell-family tools `target` carries the
/// command line; extra parameters ride in `arguments` and never take part
/// in the permission decision.
#[derive(Debug, Clone, Default)]
pub struct ToolRequest {
    pub tool: String,
    pub target: String,
    pub arguments: TextMap,
}

impl ToolRequest {
    /// A request without arguments.
    pub fn new(tool: &str, target: &str) -> (r: Self)
        ensures
            r.tool@ == tool@,
            r.target@ == target@,
            r.arguments@ == Map::<Seq<char>, Seq<char>>::empty(),
    {
        ToolRequest {
            tool: crate::text::owned(tool),
            target: crate::text::owned(target),
            arguments: TextMap::new(),
        }
    }

    /// The same request with one more argument (replacing an earlier one
    /// under the same key).
    pub fn with_arg(self, key: &str, value: &str) -> (r: Self)
        ensures
            r.tool@ == self.tool@,
            r.target@ == self.target@,
            r.arguments@ == self.arguments@.insert(key@, value@),
    {
        let mut r = self;
        r.arguments.insert(crate::text::owned(key), crate::text::owned(value));
        r
    }
}

/// Why the user must be asked before executing.
#[derive(Debug, Clone, Copy, PartialEq, Eq, Structural)]
pub enum AskReason {
    PolicyRequiresConfirmation,
    DangerousCommand,
    GitPushRequiresConfirmation,
}

/// Why a request was refused.
#[derive(Debug, Clone, Copy, PartialEq, Eq, Structural)]
pub enum DenyReason {
    ForbiddenByPolicy,
    SudoBlocked,
    UnknownTool,
    DeniedByUser,
}

/// Structured refusal: what was blocked and why.
#[derive(Debug, Clone, PartialEq, Eq)]
pub struct Denial {
    pub tool: String,
    pub target: String,
    pub reason: DenyReason,
}

/// Outcome of a permission check.
#[derive(Debug, Clone, PartialEq, Eq)]
pub enum PermissionOutcome {
    Allowed,
    AskUser(AskReason),
    Denied(Denial),
}

/// The decision part of an outcome.
#[derive(Debug, Clone, Copy, PartialEq, Eq, Structural)]
pub enum Verdict {
    Allow,
    Ask(AskReason),
    Deny(DenyReason),
}

impl PermissionOutcome {
    /// The decision, without the request it is about.
    pub open spec fn verdict(self) -> Verdict {
        match self {
            PermissionOutcome::Allowed => Verdict::Allow,
            PermissionOutcome::AskUser(r) => Verdict::Ask(r),
            PermissionOutcome::Denied(d) => Verdict::Deny(d.reason),
        }
    }

    /// A denial names exactly the refused tool and target.
    pub open spec fn about(self, tool: Seq<char>, target: Seq<char>) -> bool {
        self matches PermissionOutcome::Denied(d) ==> d.tool@ == tool && d.target@ == target
    }

    /// True only for `Allowed`.
    pub fn is_allowed(&self) -> (r: bool)
        ensures
            r == (self.verdict() == Verdict::Allow),
    {
        match self {
            PermissionOutcome::Allowed => true,
            _ => false,
        }
    }
}

/// Tool families, each governed by one policy entry.
#[derive(Debug, Clone, Copy, PartialEq, Eq, Structural)]
pub enum ToolFamily {
    Shell,
    GitPush,
    Read,
    Edit,
    Delete,
    Unknown,
}

/// The family a tool name belongs to.
pub open spec fn family_of(t: Seq<char>) -> ToolFamily {
    if t == "shell"@ || t == "run_shell"@ || t == "run_command"@ {
        ToolFamily::Shell
    } else if t == "git_push"@ {
        ToolFamily::GitPush
    } else if t == "read_file"@ || t == "list_directory"@ || t == "search"@ || t == "git_status"@
        || t == "git_diff"@ || t == "git_log"@ {
        ToolFamily::Read
    } else if t == "write_file"@ || t == "edit_file"@ || t == "create_file"@ || t
        == "install_package"@ {
        ToolFamily::Edit
    } else if t == "delete_file"@ || t == "delete"@ {
        ToolFamily::Delete
    } else {
        ToolFamily::Unknown
    }
}

/// Executable tool-family lookup.
pub fn tool_family(t: &str) -> (f: ToolFamily)
    ensures
        f == family_of(t@),
{
    if str_eq(t, "shell") || str_eq(t, "run_shell") || str_eq(t, "run_command") {
        ToolFamily::Shell
    } else if str_eq(t, "git_push") {
        ToolFamily::GitPush
    } else if str_eq(t, "read_file") || str_eq(t, "list_directory") || str_eq(t, "search")
        || str_eq(t, "git_status") || str_eq(t, "git_diff") || str_eq(t, "git_log") {
        ToolFamily::Read
    } else if str_eq(t, "write_file") || str_eq(t, "edit_file") || str_eq(t, "create_file")
        || str_eq(t, "install_package") {
        ToolFamily::Edit
    } else if str_eq(t, "delete_file") || str_eq(t, "delete") {
        ToolFamily::Delete
    } else {
        ToolFamily::Unknown
    }
}

/// Whether the tool runs shell commands.
pub fn is_shell_tool(t: &str) -> (r: bool)
    ensures
        r == (family_of(t@) == ToolFamily::Shell),
{
    tool_family(t) == ToolFamily::Shell
}

/// Some whitespace-separated word is `sudo` (ignoring ASCII case and the
/// non-alphanumeric characters around it).
pub open spec fn is_sudo_spec(cmd: Seq<char>) -> bool {
    exists|i: int|
        0 <= i < crate::text::split_ws(cmd).len() && crate::text::eq_ignore_ascii_case(
            crate::text::trim_by(#[trigger] crate::text::split_ws(cmd)[i], CharClass::NotAlphanumeric),
            "sudo"@,
        )
}

/// Some `;`/`&`/`|`/newline-separated segment starts with `git push`
/// once its leading whitespace is dropped and it is lower-cased.
pub open spec fn is_git_push_spec(cmd: Seq<char>) -> bool {
    exists|i: int|
        0 <= i < crate::text::split_by(cmd, CharClass::CommandSeparator).len() && "git push"@.is_prefix_of(
            crate::text::lowercase_of(
                crate::text::trim_start_by(
                    #[trigger] crate::text::split_by(cmd, CharClass::CommandSeparator)[i],
                    CharClass::Whitespace,
                ),
            ),
        )
}

/// A lower-cased word is a destructive command on its own.
pub open spec fn is_dangerous_token(w: Seq<char>) -> bool {
    let t = crate::text::trim_by(w, CharClass::NotAlphanumericOrDash);
    t == "sudo"@ || t == "format"@
}

/// The lower-cased command contains a destructive pattern or a
/// destructive word.
pub open spec fn is_destructive_spec(cmd: Seq<char>) -> bool {
    let lower = crate::text::lowercase_of(cmd);
    ||| crate::text::contains(lower, "rm -rf"@)
    ||| crate::text::contains(lower, "reset --hard"@)
    ||| crate::text::contains(lower, "push --force"@)
    ||| crate::text::contains(lower, "drop database"@)
    ||| crate::text::contains(lower, ":(){:|:&};:"@)
    ||| exists|i: int| 0 <= i < crate::text::split_ws(lower).len() && is_dangerous_token(#[trigger] crate::text::split_ws(lower)[i])
}

/// Whether the command line runs `sudo`.
pub fn is_sudo_command(cmd: &str) -> (r: bool)
    ensures
        r == is_sudo_spec(cmd@),
{
    let chars = chars_of(cmd);
    let words = split_whitespace_chars(&chars);
    let sudo = chars_of("sudo");
    let ghost ws = crate::text::split_ws(cmd@);
    let mut i: usize = 0;
    while i < words.len()
        invariant
            i <= words.len(),
            ws == words@.map_values(|p: Vec<char>| p@),
            ws == crate::text::split_ws(cmd@),
            sudo@ == "sudo"@,
            forall|j: int|
                0 <= j < i ==> !crate::text::eq_ignore_ascii_case(
                    crate::text::trim_by(#[trigger] ws[j], CharClass::NotAlphanumeric),
                    "sudo"@,
                ),
        decreases words.len() - i,
    {
        let t = trim_chars(&words[i], CharClass::NotAlphanumeric);
        if chars_eq_ignore_ascii_case(&t, &sudo) {
            proof {
                assert(ws[i as int] == words@[i as int]@);
                assert(crate::text::eq_ignore_ascii_case(
                    crate::text::trim_by(crate::text::split_ws(cmd@)[i as int], CharClass::NotAlphanumeric),
                    "sudo"@,
                ));
            }
            return true;
        }
        i = i + 1;
    }
    false
}

/// Whether the command line contains a `git push` segment.
pub fn is_git_push_command(cmd: &str) -> (r: bool)
    ensures
        r == is_git_push_spec(cmd@),
{
    let chars = chars_of(cmd);
    let segments = split_chars(&chars, CharClass::CommandSeparator);
    let prefix = chars_of("git push");
    let ghost segs = crate::text::split_by(cmd@, CharClass::CommandSeparator);
    let mut i: usize = 0;
    while i < segments.len()
        invariant
            i <= segments.len(),
            segs == segments@.map_values(|p: Vec<char>| p@),
            segs == crate::text::split_by(cmd@, CharClass::CommandSeparator),
            prefix@ == "git push"@,
            forall|j: int|
                0 <= j < i ==> !"git push"@.is_prefix_of(
                    crate::text::lowercase_of(crate::text::trim_start_by(#[trigger] segs[j], CharClass::Whitespace)),
                ),
        decreases segments.len() - i,
    {
        let t = trim_start_chars(&segments[i], CharClass::Whitespace);
        let l = lowercase_chars(&t);
        if starts_with_chars(&l, &prefix) {
            proof {
                assert(segs[i as int] == segments@[i as int]@);
                assert("git push"@.is_prefix_of(
                    crate::text::lowercase_of(
                        crate::text::trim_start_by(
                            crate::text::split_by(cmd@, CharClass::CommandSeparator)[i as int],
                            CharClass::Whitespace,
                        ),
                    ),
                ));
            }
            return true;
        }
        i = i + 1;
    }
    false
}

/// Whether the command line is destructive.
pub fn contains_destructive_pattern(cmd: &str) -> (r: bool)
    ensures
        r == is_destructive_spec(cmd@),
{
    let chars = chars_of(cmd);
    let lower = lowercase_chars(&chars);
    if contains_chars(&lower, &chars_of("rm -rf")) || contains_chars(&lower, &chars_of("reset --hard"))
        || contains_chars(&lower, &chars_of("push --force")) || contains_chars(
        &lower,
        &chars_of("drop database"),
    ) || contains_chars(&lower, &chars_of(":(){:|:&};:")) {
        return true;
    }
    let words = split_whitespace_chars(&lower);
    let sudo = chars_of("sudo");
    let format = chars_of("format");
    let ghost ws = crate::text::split_ws(lower@);
    let mut i: usize = 0;
    while i < words.len()
        invariant
            i <= words.len(),
            ws == words@.map_values(|p: Vec<char>| p@),
            ws == crate::text::split_ws(lower@),
            lower@ == crate::text::lowercase_of(cmd@),
            sudo@ == "sudo"@,
            format@ == "format"@,
            forall|j: int| 0 <= j < i ==> !is_dangerous_token(#[trigger] ws[j]),
        decreases words.len() - i,
    {
        let t = trim_chars(&words[i], CharClass::NotAlphanumericOrDash);
        if chars_eq(&t, &sudo) || chars_eq(&t, &format) {
            proof {
                assert(ws[i as int] == words@[i as int]@);
                assert(is_dangerous_token(crate::text::split_ws(lower@)[i as int]));
            }
            return true;
        }
        i = i + 1;
    }
    false
}

/// A configured decision, with `ask` mapped to the given reason.
pub open spec fn decide_spec(d: PermissionDecision, ask: AskReason) -> Verdict {
    match d {
        PermissionDecision::Allow => Verdict::Allow,
        PermissionDecision::Ask => Verdict::Ask(ask),
        PermissionDecision::Deny => Verdict::Deny(DenyReason::ForbiddenByPolicy),
    }
}

/// High-risk commands raise the floor to confirmation: `allow` becomes
/// `ask`, `ask`/`deny` stay.
pub open spec fn escalate_spec(d: PermissionDecision, ask: AskReason) -> Verdict {
    match d {
        PermissionDecision::Allow => Verdict::Ask(ask),
        _ => decide_spec(d, ask),
    }
}

/// Policy for one shell command line.
pub open spec fn shell_verdict(cfg: PermissionsConfig, cmd: Seq<char>) -> Verdict {
    if is_sudo_spec(cmd) {
        Verdict::Deny(DenyReason::SudoBlocked)
    } else if is_git_push_spec(cmd) {
        escalate_spec(cfg.shell, AskReason::GitPushRequiresConfirmation)
    } else if is_destructive_spec(cmd) {
        escalate_spec(cfg.shell, AskReason::DangerousCommand)
    } else {
        decide_spec(cfg.shell, AskReason::PolicyRequiresConfirmation)
    }
}

/// Policy evaluation of a request, grants aside.
pub open spec fn evaluate_spec(cfg: PermissionsConfig, tool: Seq<char>, target: Seq<char>) -> Verdict {
    match family_of(tool) {
        ToolFamily::Shell => shell_verdict(cfg, target),
        ToolFamily::GitPush => decide_spec(cfg.git_push, AskReason::PolicyRequiresConfirmation),
        ToolFamily::Read => decide_spec(cfg.read, AskReason::PolicyRequiresConfirmation),
        ToolFamily::Edit => decide_spec(cfg.edit, AskReason::PolicyRequiresConfirmation),
        ToolFamily::Delete => decide_spec(cfg.delete, AskReason::PolicyRequiresConfirmation),
        ToolFamily::Unknown => Verdict::Deny(DenyReason::UnknownTool),
    }
}

/// A check: an askable request with a matching grant is allowed and the
/// grant is consumed; everything else is the policy verdict, grants kept.
pub open spec fn check_spec(
    cfg: PermissionsConfig,
    grants: Set<(Seq<char>, Seq<char>)>,
    tool: Seq<char>,
    target: Seq<char>,
) -> (Verdict, Set<(Seq<char>, Seq<char>)>) {
    let v = evaluate_spec(cfg, tool, target);
    if v is Ask && grants.contains((tool, target)) {
        (Verdict::Allow, grants.remove((tool, target)))
    } else {
        (v, grants)
    }
}

/// Views of grant pairs.
pub open spec fn pairs_view(g: Seq<(String, String)>) -> Seq<(Seq<char>, Seq<char>)> {
    g.map_values(|p: (String, String)| (p.0@, p.1@))
}

/// Pushing onto a sequence inserts into its set of elements.
proof fn lemma_push_to_set<A>(s: Seq<A>, x: A)
    ensures
        s.push(x).to_set() == s.to_set().insert(x),
{
    assert forall|a: A| s.push(x).to_set().contains(a) == s.to_set().insert(x).contains(a) by {
        if s.push(x).contains(a) {
            let k = choose|k: int| 0 <= k < s.push(x).len() && #[trigger] s.push(x)[k] == a;
            if k < s.len() {
                assert(s[k] == a);
            }
        }
        if s.contains(a) {
            let k = choose|k: int| 0 <= k < s.len() && #[trigger] s[k] == a;
            assert(s.push(x)[k] == a);
        }
        if a == x {
            assert(s.push(x)[s.len() as int] == a);
        }
    }
    assert(s.push(x).to_set() =~= s.to_set().insert(x));
}

/// A grant can only confirm what policy marks askable: when the policy
/// denies a request, a check denies it whatever grants are pending, and
/// leaves the grants untouched.
pub proof fn law_grants_never_override_denials(
    cfg: PermissionsConfig,
    grants: Set<(Seq<char>, Seq<char>)>,
    tool: Seq<char>,
    target: Seq<char>,
)
    requires
        evaluate_spec(cfg, tool, target) is Deny,
    ensures
        check_spec(cfg, grants, tool, target) == (evaluate_spec(cfg, tool, target), grants),
{
}

/// A grant turns exactly one `ask` into `allow`: the next check of the
/// same request is allowed and consumes it, the one after asks again.
pub proof fn law_grant_is_single_use(
    cfg: PermissionsConfig,
    grants: Set<(Seq<char>, Seq<char>)>,
    tool: Seq<char>,
    target: Seq<char>,
)
    requires
        evaluate_spec(cfg, tool, target) is Ask,
    ensures
        check_spec(cfg, grants.insert((tool, target)), tool, target).0 == Verdict::Allow,
        check_spec(
            cfg,
            check_spec(cfg, grants.insert((tool, target)), tool, target).1,
            tool,
            target,
        ).0 == evaluate_spec(cfg, tool, target),
{
    let g1 = grants.insert((tool, target));
    assert(g1.contains((tool, target)));
    assert(!g1.remove((tool, target)).contains((tool, target)));
}

/// A grant for one exact tool + target never changes the verdict for any
/// other request.
pub proof fn law_grant_is_scoped_to_its_request(
    cfg: PermissionsConfig,
    grants: Set<(Seq<char>, Seq<char>)>,
    granted: (Seq<char>, Seq<char>),
    tool: Seq<char>,
    target: Seq<char>,
)
    requires
        granted != (tool, target),
    ensures
        check_spec(cfg, grants.insert(granted), tool, target).0 == check_spec(
            cfg,
            grants,
            tool,
            target,
        ).0,
{
    assert(grants.insert(granted).contains((tool, target)) == grants.contains((tool, target)));
}

/// `sudo` through a shell tool is always refused, whatever the policy and
/// the pending grants.
pub proof fn law_sudo_is_always_denied(
    cfg: PermissionsConfig,
    grants: Set<(Seq<char>, Seq<char>)>,
    tool: Seq<char>,
    command: Seq<char>,
)
    requires
        family_of(tool) == ToolFamily::Shell,
        is_sudo_spec(command),
    ensures
        check_spec(cfg, grants, tool, command).0 == Verdict::Deny(DenyReason::SudoBlocked),
{
}

/// `git push` and destructive commands through a shell tool are never
/// allowed by policy alone, even when the shell policy is `allow`.
pub proof fn law_high_risk_commands_need_confirmation(
    cfg: PermissionsConfig,
    tool: Seq<char>,
    command: Seq<char>,
)
    requires
        family_of(tool) == ToolFamily::Shell,
        is_git_push_spec(command) || is_destructive_spec(command),
    ensures
        evaluate_spec(cfg, tool, command) != Verdict::Allow,
{
}

/// Unknown tools fail closed, whatever the policy and the grants.
pub proof fn law_unknown_tools_fail_closed(
    cfg: PermissionsConfig,
    grants: Set<(Seq<char>, Seq<char>)>,
    tool: Seq<char>,
    target: Seq<char>,
)
    requires
        family_of(tool) == ToolFamily::Unknown,
    ensures
        check_spec(cfg, grants, tool, target) == (Verdict::Deny(DenyReason::UnknownTool), grants),
{
}

/// What a check of `(tool, target)` under policy `cfg` and pending grants
/// `before` answers, and the grants it leaves.
pub open spec fn checked(
    cfg: PermissionsConfig,
    before: Set<(Seq<char>, Seq<char>)>,
    tool: Seq<char>,
    target: Seq<char>,
    o: PermissionOutcome,
    after: Set<(Seq<char>, Seq<char>)>,
) -> bool {
    &&& (o.verdict(), after) == check_spec(cfg, before, tool, target)
    &&& o.about(tool, target)
}

/// The rules of a check, in priority order, whatever the policy and the
/// pending grants: an unknown tool is denied, naming the tool and target;
/// a shell command that runs `sudo` is denied; a shell command with a
/// `git push` segment or a destructive pattern is allowed only on a grant
/// of exactly that request, which the check consumes; and a check that
/// does not allow never consumes a grant.
pub proof fn law_check_rules_in_priority_order(
    cfg: PermissionsConfig,
    before: Set<(Seq<char>, Seq<char>)>,
    tool: Seq<char>,
    target: Seq<char>,
    o: PermissionOutcome,
    after: Set<(Seq<char>, Seq<char>)>,
)
    requires
        checked(cfg, before, tool, target, o, after),
    ensures
        family_of(tool) == ToolFamily::Unknown ==> (o matches PermissionOutcome::Denied(d) && d.tool@ == tool
            && d.target@ == target && d.reason == DenyReason::UnknownTool),
        family_of(tool) == ToolFamily::Shell && is_sudo_spec(target) ==> (o matches PermissionOutcome::Denied(d)
            && d.tool@ == tool && d.target@ == target && d.reason == DenyReason::SudoBlocked),
        family_of(tool) == ToolFamily::Shell && (is_git_push_spec(target) || is_destructive_spec(target)) && o
            is Allowed ==> before.contains((tool, target)) && after == before.remove((tool, target)),
        !(o is Allowed) ==> after == before,
{
}

/// The default policy reads freely, asks before edits and deletions,
/// asks before any shell command, and never pushes.
pub proof fn law_default_policy_is_safe(tool: Seq<char>, target: Seq<char>)
    ensures
        family_of(tool) == ToolFamily::Read ==> evaluate_spec(
            crate::config::default_permissions(),
            tool,
            target,
        ) == Verdict::Allow,
        family_of(tool) == ToolFamily::Edit || family_of(tool) == ToolFamily::Delete
            ==> evaluate_spec(crate::config::default_permissions(), tool, target) is Ask,
        family_of(tool) == ToolFamily::Shell ==> evaluate_spec(
            crate::config::default_permissions(),
            tool,
            target,
        ) != Verdict::Allow,
        family_of(tool) == ToolFamily::GitPush ==> evaluate_spec(
            crate::config::default_permissions(),
            tool,
            target,
        ) == Verdict::Deny(DenyReason::ForbiddenByPolicy),
{
}

/// Decides every tool request from a policy plus single-use grants. The
/// grants are kept as a list viewed as a set: vstd specifies `HashSet`
/// only for keys that obey its key model (integers, `bool` and boxes of
/// them), so a set of string pairs would give the contracts nothing to
/// prove with.
pub struct PermissionManager {
    config: PermissionsConfig,
    grants: Vec<(String, String)>,
}

impl PermissionManager {
    /// The policy in force.
    pub closed spec fn policy(&self) -> PermissionsConfig {
        self.config
    }

    /// The pending single-use grants, as `(tool, target)` pairs.
    pub closed spec fn grants(&self) -> Set<(Seq<char>, Seq<char>)> {
        pairs_view(self.grants@).to_set()
    }

    /// A manager with no grants.
    pub fn new(config: PermissionsConfig) -> (m: Self)
        ensures
            m.policy() == config,
            m.grants() == Set::<(Seq<char>, Seq<char>)>::empty(),
    {
        let m = PermissionManager { config, grants: Vec::new() };
        proof {
            assert(m.grants() =~= Set::<(Seq<char>, Seq<char>)>::empty());
        }
        m
    }

    /// The policy in force.
    pub fn config(&self) -> (c: &PermissionsConfig)
        ensures
            *c == self.policy(),
    {
        &self.config
    }

    /// Record a one-time confirmation for an exact tool + target.
    pub fn grant_once(&mut self, tool: &str, target: &str)
        ensures
            final(self).policy() == old(self).policy(),
            final(self).grants() == old(self).grants().insert((tool@, target@)),
    {
        let ghost g0 = pairs_view(self.grants@);
        self.grants.push((crate::text::owned(tool), crate::text::owned(target)));
        proof {
            assert(pairs_view(self.grants@) == g0.push((tool@, target@)));
            lemma_push_to_set(g0, (tool@, target@));
        }
    }

    /// Remove every grant for `(tool, target)`; report whether one existed.
    fn take_grant(&mut self, tool: &str, target: &str) -> (found: bool)
        ensures
            final(self).policy() == old(self).policy(),
            found == old(self).grants().contains((tool@, target@)),
            final(self).grants() == old(self).grants().remove((tool@, target@)),
    {
        let ghost g0 = pairs_view(self.grants@);
        let ghost key = (tool@, target@);
        let mut kept: Vec<(String, String)> = Vec::new();
        let mut found = false;
        let mut i: usize = 0;
        while i < self.grants.len()
            invariant
                i <= self.grants@.len(),
                g0 == pairs_view(self.grants@),
                key == (tool@, target@),
                pairs_view(kept@).to_set() == g0.take(i as int).to_set().remove(key),
                found == g0.take(i as int).to_set().contains(key),
            decreases self.grants.len() - i,
        {
            let same = str_eq(self.grants[i].0.as_str(), tool) && str_eq(
                self.grants[i].1.as_str(),
                target,
            );
            proof {
                assert(g0.take(i + 1) == g0.take(i as int).push(g0[i as int]));
                assert(g0[i as int] == (self.grants@[i as int].0@, self.grants@[i as int].1@));
                lemma_push_to_set(g0.take(i as int), g0[i as int]);
                assert(same == (g0[i as int] == key));
            }
            if same {
                found = true;
                proof {
                    assert(g0.take(i + 1).to_set().remove(key) =~= g0.take(i as int).to_set().remove(key));
                }
            } else {
                let ghost before = pairs_view(kept@);
                let ghost e = g0[i as int];
                let t = self.grants[i].0.clone();
                let u = self.grants[i].1.clone();
                kept.push((t, u));
                proof {
                    assert(pairs_view(kept@) == before.push(e));
                    lemma_push_to_set(before, e);
                    assert(g0.take(i + 1).to_set().remove(key) =~= g0.take(i as int).to_set().remove(key).insert(e));
                }
            }
            i = i + 1;
        }
        proof {
            assert(g0.take(g0.len() as int) == g0);
        }
        self.grants = kept;
        found
    }

    /// Apply a configured decision.
    fn decide(
        &self,
        request: &ToolRequest,
        decision: PermissionDecision,
        ask: AskReason,
    ) -> (o: PermissionOutcome)
        ensures
            o.verdict() == decide_spec(decision, ask),
            o.about(request.tool@, request.target@),
    {
        match decision {
            PermissionDecision::Allow => PermissionOutcome::Allowed,
            PermissionDecision::Ask => PermissionOutcome::AskUser(ask),
            PermissionDecision::Deny => PermissionOutcome::Denied(
                Denial {
                    tool: request.tool.clone(),
                    target: request.target.clone(),
                    reason: DenyReason::ForbiddenByPolicy,
                },
            ),
        }
    }

    /// Raise `allow` to `ask` for a high-risk command.
    fn escalate(
        &self,
        request: &ToolRequest,
        base: PermissionDecision,
        ask: AskReason,
    ) -> (o: PermissionOutcome)
        ensures
            o.verdict() == escalate_spec(base, ask),
            o.about(request.tool@, request.target@),
    {
        match base {
            PermissionDecision::Allow => PermissionOutcome::AskUser(ask),
            _ => self.decide(request, base, ask),
        }
    }

    /// Policy for a shell-family request.
    fn check_shell(&self, request: &ToolRequest) -> (o: PermissionOutcome)
        ensures
            o.verdict() == shell_verdict(self.policy(), request.target@),
            o.about(request.tool@, request.target@),
    {
        if is_sudo_command(request.target.as_str()) {
            return PermissionOutcome::Denied(
                Denial {
                    tool: request.tool.clone(),
                    target: request.target.clone(),
                    reason: DenyReason::SudoBlocked,
                },
            );
        }
        let base = self.config.shell;
        if is_git_push_command(request.target.as_str()) {
            return self.escalate(request, base, AskReason::GitPushRequiresConfirmation);
        }
        if contains_destructive_pattern(request.target.as_str()) {
            return self.escalate(request, base, AskReason::DangerousCommand);
        }
        self.decide(request, base, AskReason::PolicyRequiresConfirmation)
    }

    /// Policy evaluation without grant handling.
    fn evaluate(&self, request: &ToolRequest) -> (o: PermissionOutcome)
        ensures
            o.verdict() == evaluate_spec(self.policy(), request.tool@, request.target@),
            o.about(request.tool@, request.target@),
    {
        match tool_family(request.tool.as_str()) {
            ToolFamily::Shell => self.check_shell(request),
            ToolFamily::GitPush => self.decide(
                request,
                self.config.git_push,
                AskReason::PolicyRequiresConfirmation,
            ),
            ToolFamily::Read => self.decide(
                request,
                self.config.read,
                AskReason::PolicyRequiresConfirmation,
            ),
            ToolFamily::Edit => self.decide(
                request,
                self.config.edit,
                AskReason::PolicyRequiresConfirmation,
            ),
            ToolFamily::Delete => self.decide(
                request,
                self.config.delete,
                AskReason::PolicyRequiresConfirmation,
            ),
            ToolFamily::Unknown => PermissionOutcome::Denied(
                Denial {
                    tool: request.tool.clone(),
                    target: request.target.clone(),
                    reason: DenyReason::UnknownTool,
                },
            ),
        }
    }

    /// Check a request against policy, consuming a matching grant when the
    /// policy would ask.
    pub fn check(&mut self, request: &ToolRequest) -> (o: PermissionOutcome)
        ensures
            final(self).policy() == old(self).policy(),
            checked(old(self).policy(), old(self).grants(), request.tool@, request.target@, o, final(self).grants()),
    {
        let outcome = self.evaluate(request);
        match outcome {
            PermissionOutcome::AskUser(_) => {
                let granted = self.take_grant(request.tool.as_str(), request.target.as_str());
                if granted {
                    PermissionOutcome::Allowed
                } else {
                    proof {
                        assert(final(self).grants() =~= old(self).grants());
                    }
                    self.evaluate(request)
                }
            },
            other => other,
        }
    }
}

/// Law: each tool family is decided by its own policy setting. A
/// read, edit, delete or `git push` tool is allowed when its setting
/// allows, answered with a confirmation question when its setting asks,
/// and refused as forbidden by policy when its setting denies.
pub proof fn law_each_family_follows_its_own_setting(cfg: PermissionsConfig, tool: Seq<char>, target: Seq<char>)
    ensures
        ({
            let setting = match family_of(tool) {
                ToolFamily::Read => Some(cfg.read),
                ToolFamily::Edit => Some(cfg.edit),
                ToolFamily::Delete => Some(cfg.delete),
                ToolFamily::GitPush => Some(cfg.git_push),
                _ => None,
            };
            let v = evaluate_spec(cfg, tool, target);
            &&& setting == Some(PermissionDecision::Allow) ==> v == Verdict::Allow
            &&& setting == Some(PermissionDecision::Ask) ==> v == Verdict::Ask(AskReason::PolicyRequiresConfirmation)
            &&& setting == Some(PermissionDecision::Deny) ==> v == Verdict::Deny(DenyReason::ForbiddenByPolicy)
        }),
{
}

/// Law: a deletion's verdict depends on the delete setting alone: two
/// policies that agree on deletions decide every delete tool alike,
/// whatever they say of edits, reads, shell commands or pushes.
pub proof fn law_deletions_follow_the_delete_setting(
    a: PermissionsConfig,
    b: PermissionsConfig,
    tool: Seq<char>,
    target: Seq<char>,
)
    requires
        family_of(tool) == ToolFamily::Delete,
        a.delete == b.delete,
    ensures
        evaluate_spec(a, tool, target) == evaluate_spec(b, tool, target),
        a.delete == PermissionDecision::Ask ==> evaluate_spec(a, tool, target) == Verdict::Ask(
            AskReason::PolicyRequiresConfirmation,
        ),
{
}

} // verus!
