//! Shell commands: the checks before a command runs and the shape of
//! what comes back. Spawning the process belongs to the application.
use vstd::prelude::*;

use crate::errors::DarbError;
use crate::text::{chars_of, concat, owned, slice_to_vec, string_of, trim_chars, CharClass};

verus! {

/// Longest output stream kept, in characters.
pub const MAX_OUTPUT_CHARS: usize = 64 * 1024;

/// Seconds a command may run before it is killed.
pub const COMMAND_TIMEOUT_SECS: u64 = 120;

/// What a finished command left behind.
#[derive(Debug, Clone, PartialEq, Eq)]
pub struct ShellOutput {
    pub exit_code: i32,
    pub stdout: String,
    pub stderr: String,
    /// Whether either stream was cut.
    pub truncated: bool,
}

impl ShellOutput {
    /// Whether the command exited with status zero.
    pub fn succeeded(&self) -> (b: bool)
        ensures
            b == (self.exit_code == 0),
    {
        self.exit_code == 0
    }
}

/// A command is refused when it is blank.
pub fn check_command(command: &str) -> (r: Result<(), DarbError>)
    ensures
        r is Ok <==> crate::text::trim(command@).len() > 0,
        r matches Err(e) ==> e is Tool && e.detail_view() == "shell command must not be empty"@,
{
    let v = chars_of(command);
    if trim_chars(&v, CharClass::Whitespace).len() == 0 {
        Err(DarbError::Tool(owned("shell command must not be empty")))
    } else {
        Ok(())
    }
}

/// Text of bytes decoded as UTF-8, invalid sequences replaced, as
/// `String::from_utf8_lossy` computes it.
pub uninterp spec fn lossy_text(bytes: Seq<u8>) -> Seq<char>;

/// `String::from_utf8_lossy`. Claimed: the text is a fixed function of
/// the bytes.
#[verifier::external_body]
pub fn from_utf8_lossy(bytes: &[u8]) -> (r: String)
    ensures
        r@ == lossy_text(bytes@),
{
    String::from_utf8_lossy(bytes).into_owned()
}

/// A stream's text cut to [`MAX_OUTPUT_CHARS`] characters (marked when
/// cut), and whether it was cut.
pub open spec fn capped(text: Seq<char>) -> (Seq<char>, bool) {
    if text.len() <= MAX_OUTPUT_CHARS {
        (text, false)
    } else {
        (text.take(MAX_OUTPUT_CHARS as int) + "\n…[truncated]"@, true)
    }
}

/// Decode one output stream and cap it.
pub fn cap_stream(bytes: &[u8]) -> (r: (String, bool))
    ensures
        (r.0@, r.1) == capped(lossy_text(bytes@)),
{
    let text = from_utf8_lossy(bytes);
    let v = chars_of(text.as_str());
    if v.len() <= MAX_OUTPUT_CHARS {
        return (text, false);
    }
    let kept = string_of(&slice_to_vec(&v, 0, MAX_OUTPUT_CHARS));
    (concat(kept.as_str(), "\n…[truncated]"), true)
}

/// The output of a finished command from its exit code (`-1` when it
/// has none, e.g. killed by a signal) and raw streams.
pub fn finished_output(exit_code: Option<i32>, stdout: &[u8], stderr: &[u8]) -> (r: ShellOutput)
    ensures
        r.exit_code == (match exit_code {
            Some(c) => c as int,
            None => -1int,
        }),
        r.stdout@ == capped(lossy_text(stdout@)).0,
        r.stderr@ == capped(lossy_text(stderr@)).0,
        r.truncated == (capped(lossy_text(stdout@)).1 || capped(lossy_text(stderr@)).1),
{
    let (out, out_cut) = cap_stream(stdout);
    let (err, err_cut) = cap_stream(stderr);
    ShellOutput {
        exit_code: match exit_code {
            Some(c) => c,
            None => -1,
        },
        stdout: out,
        stderr: err,
        truncated: out_cut || err_cut,
    }
}

/// The refusal of a command that ran past its time limit.
pub fn timeout_error(seconds: u64) -> (e: DarbError)
    ensures
        e is Tool,
        e.detail_view() == "command timed out after "@ + crate::text::decimal(seconds as nat)
            + "s and was killed; prefer faster commands"@,
{
    let a = concat("command timed out after ", crate::text::decimal_string(seconds).as_str());
    DarbError::Tool(concat(a.as_str(), "s and was killed; prefer faster commands"))
}

} // verus!
