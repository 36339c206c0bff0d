//! What the interactive prompt does with a line the user typed.
use vstd::prelude::*;
use vstd::string::*;

use crate::text::{chars_of, eq_ignore_ascii_case, range_eq_ignore_ascii_case, trim, trim_bounds};

verus! {

/// What to do with a line typed at the prompt.
pub enum InputAction {
    /// Leave the prompt.
    Exit,
    /// Ask again; the line was empty.
    Skip,
    /// Hand the request, trimmed, to the agent.
    Request(String),
}

/// Whether the trimmed line asks to leave: `exit` or `quit` in any ASCII case.
pub open spec fn is_exit_word(t: Seq<char>) -> bool {
    eq_ignore_ascii_case(t, "exit"@) || eq_ignore_ascii_case(t, "quit"@)
}

/// Decides what a typed line means: leaving, nothing, or a request.
pub fn classify_input(line: &str) -> (r: InputAction)
    ensures
        is_exit_word(trim(line@)) ==> r is Exit,
        !is_exit_word(trim(line@)) && trim(line@).len() == 0 ==> r is Skip,
        !is_exit_word(trim(line@)) && trim(line@).len() > 0 ==> (r matches InputAction::Request(s)
            && s@ == trim(line@)),
{
    let v = chars_of(line);
    let (a, b) = trim_bounds(&v, 0, v.len());
    assert(v@.subrange(0, v@.len() as int) == v@);
    let exit_word = chars_of("exit");
    let quit_word = chars_of("quit");
    if range_eq_ignore_ascii_case(&v, a, b, &exit_word) || range_eq_ignore_ascii_case(
        &v,
        a,
        b,
        &quit_word,
    ) {
        return InputAction::Exit;
    }
    if a == b {
        return InputAction::Skip;
    }
    InputAction::Request(String::from_str(line.substring_char(a, b)))
}

} // verus!
