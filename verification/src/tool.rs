//! The shell tool: what a run reports, and which commands never reach the shell.
use vstd::prelude::*;
use vstd::string::*;
use vstd::utf8::*;

use crate::text::{
    chars_of, has_prefix, is_whitespace, is_ws, range_has_prefix, signed_decimal,
    signed_decimal_string, trim, trim_bounds,
};

verus! {

/// What running a command reported: its exit status as text, and what it
/// printed on standard output and standard error.
#[derive(Debug)]
pub struct ToolResult {
    pub status: String,
    pub output: String,
    pub error: String,
}

/// A tool result as plain values.
pub struct ToolResultView {
    pub status: Seq<char>,
    pub output: Seq<char>,
    pub error: Seq<char>,
}

impl View for ToolResult {
    type V = ToolResultView;

    open spec fn view(&self) -> ToolResultView {
        ToolResultView { status: self.status@, output: self.output@, error: self.error@ }
    }
}

/// A tool the agent can use, such as the shell.
pub struct Tool {
    pub name: String,
    pub description: String,
    pub is_human_in_loop: bool,
    pub command: String,
}

/// The text that `String::from_utf8_lossy` makes of `bytes`.
pub uninterp spec fn utf8_lossy(bytes: Seq<u8>) -> Seq<char>;

/// Calls `String::from_utf8_lossy`. Trusted: the result is the named value
/// `utf8_lossy(bytes)`, and, as std documents, for valid UTF-8 it is the text
/// that the bytes encode. What replaces invalid sequences is left unsaid here.
#[verifier::external_body]
fn decode_lossy(bytes: &[u8]) -> (s: String)
    ensures
        s@ == utf8_lossy(bytes@),
        valid_utf8(bytes@) ==> s@ == decode_utf8(bytes@),
{
    String::from_utf8_lossy(bytes).into_owned()
}

/// The status text of a run: the exit code in decimal, or a note that a
/// signal ended the process.
pub open spec fn status_text(code: Option<i32>) -> Seq<char> {
    match code {
        Some(c) => signed_decimal(c as int),
        None => "Terminated by signal"@,
    }
}

/// The commands that are never handed to the shell.
pub open spec fn blocked_commands() -> Seq<Seq<char>> {
    seq!["rm -rf /"@, "rm -rf /*"@, "rm -fr /"@, "rm -fr /*"@, ":(){ :|:& };:"@]
}

/// Whether `cmd`, trimmed, is the blocked command `p` or starts with `p`
/// followed by white space.
pub open spec fn runs_blocked(cmd: Seq<char>, p: Seq<char>) -> bool {
    let t = trim(cmd);
    ||| t == p
    ||| has_prefix(t, p) && t.len() > p.len() && is_ws(t[p.len() as int])
}

/// Whether `cmd` is on the blacklist of dangerous commands.
pub open spec fn is_blacklisted(cmd: Seq<char>) -> bool {
    exists|k: int| 0 <= k < blocked_commands().len() && runs_blocked(cmd, #[trigger] blocked_commands()[k])
}

/// The report of a command that was refused.
pub open spec fn refused_result() -> ToolResultView {
    ToolResultView {
        status: "Blocked"@,
        output: Seq::empty(),
        error: "Command refused: it is on the blacklist of dangerous commands"@,
    }
}

fn blocked_command(k: usize) -> (r: &'static str)
    requires
        k < 5,
    ensures
        r@ == blocked_commands()[k as int],
{
    match k {
        0 => "rm -rf /",
        1 => "rm -rf /*",
        2 => "rm -fr /",
        3 => "rm -fr /*",
        _ => ":(){ :|:& };:",
    }
}

fn matches_blocked(v: &Vec<char>, a: usize, b: usize, p: &Vec<char>) -> (r: bool)
    requires
        a <= b <= v@.len(),
    ensures
        r == ({
            let t = v@.subrange(a as int, b as int);
            ||| t == p@
            ||| has_prefix(t, p@) && t.len() > p@.len() && is_ws(t[p@.len() as int])
        }),
{
    let pre = range_has_prefix(v, a, b, p);
    if !pre {
        proof {
            let t = v@.subrange(a as int, b as int);
            if t == p@ {
                assert(t.subrange(0, p@.len() as int) =~= t);
            }
        }
        return false;
    }
    if b - a == p.len() {
        assert(v@.subrange(a as int, b as int) =~= v@.subrange(a as int, b as int).subrange(
            0,
            p@.len() as int,
        ));
        return true;
    }
    let r = is_whitespace(v[a + p.len()]);
    assert(v@.subrange(a as int, b as int)[p@.len() as int] == v@[a + p@.len()]);
    assert(v@.subrange(a as int, b as int) != p@);
    r
}

impl ToolResult {
    /// The report of a process that ran: its exit code (none when a signal
    /// ended it) and its standard output and error, decoded as UTF-8 with
    /// invalid sequences replaced.
    pub fn from_output(code: Option<i32>, stdout: &[u8], stderr: &[u8]) -> (r: ToolResult)
        ensures
            r@ == (ToolResultView {
                status: status_text(code),
                output: utf8_lossy(stdout@),
                error: utf8_lossy(stderr@),
            }),
            valid_utf8(stdout@) ==> r.output@ == decode_utf8(stdout@),
            valid_utf8(stderr@) ==> r.error@ == decode_utf8(stderr@),
    {
        let status = match code {
            Some(c) => signed_decimal_string(c),
            None => String::from_str("Terminated by signal"),
        };
        ToolResult { status, output: decode_lossy(stdout), error: decode_lossy(stderr) }
    }

    /// The report of a command that could not be started, with the reason.
    pub fn launch_failed(reason: String) -> (r: ToolResult)
        ensures
            r@ == (ToolResultView {
                status: "Execution failed"@,
                output: Seq::empty(),
                error: reason@,
            }),
    {
        ToolResult { status: String::from_str("Execution failed"), output: String::new(), error: reason }
    }
}

impl Tool {
    /// Screens `command` before it reaches the shell: the refusal report when
    /// it is on the blacklist of dangerous commands, nothing when it may run.
    pub fn screen_command(command: &str) -> (r: Option<ToolResult>)
        ensures
            r is Some <==> is_blacklisted(command@),
            r matches Some(res) ==> res@ == refused_result(),
    {
        proof {
            reveal_strlit("rm -rf /");
            reveal_strlit("rm -rf /*");
            reveal_strlit("rm -fr /");
            reveal_strlit("rm -fr /*");
            reveal_strlit(":(){ :|:& };:");
        }
        let v = chars_of(command);
        let (a, b) = trim_bounds(&v, 0, v.len());
        assert(v@.subrange(0, v@.len() as int) == v@);
        let mut k: usize = 0;
        while k < 5
            invariant
                k <= 5,
                a <= b <= v@.len(),
                v@.subrange(a as int, b as int) == trim(command@),
                forall|j: int| 0 <= j < k ==> !runs_blocked(command@, #[trigger] blocked_commands()[j]),
            decreases 5 - k,
        {
            let p = chars_of(blocked_command(k));
            if matches_blocked(&v, a, b, &p) {
                let refused = ToolResult {
                    status: String::from_str("Blocked"),
                    output: String::new(),
                    error: String::from_str(
                        "Command refused: it is on the blacklist of dangerous commands",
                    ),
                };
                assert(runs_blocked(command@, blocked_commands()[k as int]));
                return Some(refused);
            }
            k = k + 1;
        }
        None
    }
}

} // verus!
