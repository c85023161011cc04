//! Project memory: the rules a record must pass before it is stored, and
//! the records themselves. The SQLite store is driven by the application.
use vstd::prelude::*;

use crate::errors::DarbError;
use crate::text::{chars_of, concat, owned, trim_chars, CharClass};
use crate::tools::filesystem::path_join;

verus! {

/// Longest text, in characters, one record may hold.
pub const MAX_TEXT_CHARS: usize = 256 * 1024;

/// Schema version of the store.
pub const SCHEMA_VERSION: i64 = 1;

/// One work session.
#[derive(Debug, Clone)]
pub struct Session {
    pub id: i64,
    pub started_at: i64,
    pub project_root: String,
    pub profile: String,
}

/// One recorded chat message.
#[derive(Debug, Clone)]
pub struct Message {
    pub id: i64,
    pub role: String,
    pub text: String,
    pub created_at: i64,
}

/// One recorded task outcome.
#[derive(Debug, Clone)]
pub struct Decision {
    pub id: i64,
    pub summary: String,
    pub outcome: String,
    pub created_at: i64,
}

/// The roles a message may have.
pub open spec fn valid_role(role: Seq<char>) -> bool {
    role == "user"@ || role == "agent"@ || role == "system"@
}

/// A text longer than the limit is refused, naming what it is.
pub fn check_text(text: &str, what: &str) -> (r: Result<(), DarbError>)
    ensures
        r is Ok <==> text@.len() <= MAX_TEXT_CHARS,
        r matches Err(e) ==> e is Storage && e.detail_view() == what@ + " exceeds the "@
            + crate::text::decimal(MAX_TEXT_CHARS as nat) + "-char memory limit"@,
{
    if chars_of(text).len() > MAX_TEXT_CHARS {
        let a = concat(what, " exceeds the ");
        let b = concat(a.as_str(), crate::text::decimal_string(MAX_TEXT_CHARS as u64).as_str());
        return Err(DarbError::Storage(concat(b.as_str(), "-char memory limit")));
    }
    Ok(())
}

fn blank(s: &str) -> (b: bool)
    ensures
        b == (crate::text::trim(s@).len() == 0),
{
    let v = chars_of(s);
    trim_chars(&v, CharClass::Whitespace).len() == 0
}

/// A message is stored when its role is known and its text is neither
/// blank nor over the limit.
pub fn check_message(role: &str, text: &str) -> (r: Result<(), DarbError>)
    ensures
        r is Ok <==> valid_role(role@) && crate::text::trim(text@).len() > 0 && text@.len() <= MAX_TEXT_CHARS,
        !valid_role(role@) ==> (r matches Err(e) && e is Storage && e.detail_view() == "invalid message role '"@
            + role@ + "': expected one of [\"user\", \"agent\", \"system\"]"@),
        valid_role(role@) && crate::text::trim(text@).len() == 0 ==> (r matches Err(e) && e is Storage
            && e.detail_view() == "cannot record an empty message"@),
{
    if !(crate::text::str_eq(role, "user") || crate::text::str_eq(role, "agent") || crate::text::str_eq(role, "system")) {
        let a = concat("invalid message role '", role);
        return Err(DarbError::Storage(concat(a.as_str(), "': expected one of [\"user\", \"agent\", \"system\"]")));
    }
    if blank(text) {
        return Err(DarbError::Storage(owned("cannot record an empty message")));
    }
    check_text(text, "message")
}

/// A tool call is stored when it names a tool.
pub fn check_tool_call(tool: &str) -> (r: Result<(), DarbError>)
    ensures
        r is Ok <==> crate::text::trim(tool@).len() > 0,
        r matches Err(e) ==> e is Storage && e.detail_view() == "tool name must not be empty"@,
{
    if blank(tool) {
        return Err(DarbError::Storage(owned("tool name must not be empty")));
    }
    Ok(())
}

/// A decision is stored when its summary is neither blank nor over the
/// limit.
pub fn check_decision(summary: &str) -> (r: Result<(), DarbError>)
    ensures
        r is Ok <==> crate::text::trim(summary@).len() > 0 && summary@.len() <= MAX_TEXT_CHARS,
        crate::text::trim(summary@).len() == 0 ==> (r matches Err(e) && e is Storage && e.detail_view()
            == "decision summary must not be empty"@),
{
    if blank(summary) {
        return Err(DarbError::Storage(owned("decision summary must not be empty")));
    }
    check_text(summary, "decision summary")
}

/// A project fact is stored when its key is not blank and its value is
/// not over the limit.
pub fn check_memory(key: &str, value: &str) -> (r: Result<(), DarbError>)
    ensures
        r is Ok <==> crate::text::trim(key@).len() > 0 && value@.len() <= MAX_TEXT_CHARS,
        crate::text::trim(key@).len() == 0 ==> (r matches Err(e) && e is Storage && e.detail_view()
            == "memory key must not be empty"@),
{
    if blank(key) {
        return Err(DarbError::Storage(owned("memory key must not be empty")));
    }
    check_text(value, "memory value")
}

/// The error of a failed store operation, from the store's message.
pub fn store_error(message: &str) -> (e: DarbError)
    ensures
        e is Storage,
        e.detail_view() == "sqlite error: "@ + message@,
{
    DarbError::Storage(concat("sqlite error: ", message))
}

/// Where a project keeps its state: `.darb/` under the root, with the
/// configuration, the memory database and the sessions directory.
#[derive(Debug, Clone)]
pub struct ProjectPaths {
    pub root: String,
    pub darb_dir: String,
    pub config_path: String,
    pub memory_path: String,
    pub sessions_dir: String,
}

impl ProjectPaths {
    /// The layout under `root`.
    pub fn new(root: &str) -> (p: Self)
        ensures
            p.root@ == root@,
            p.darb_dir@ == path_join(root@, ".darb"@),
            p.config_path@ == path_join(p.darb_dir@, "config.toml"@),
            p.memory_path@ == path_join(p.darb_dir@, "memory.db"@),
            p.sessions_dir@ == path_join(p.darb_dir@, "sessions"@),
    {
        let darb_dir = crate::tools::filesystem::join_str(root, ".darb");
        ProjectPaths {
            config_path: crate::tools::filesystem::join_str(darb_dir.as_str(), "config.toml"),
            memory_path: crate::tools::filesystem::join_str(darb_dir.as_str(), "memory.db"),
            sessions_dir: crate::tools::filesystem::join_str(darb_dir.as_str(), "sessions"),
            darb_dir,
            root: owned(root),
        }
    }
}

} // verus!
