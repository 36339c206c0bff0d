//! Properties that hold across the library's operations.
use vstd::prelude::*;
use vstd::utf8::*;

use crate::agent::{budget_spent, char_cut, keep_last, lemma_char_cut, truncated_output, TRUNCATION_MARK, SUMMARY_OUTPUT_BYTES};
use crate::llm::{
    lemma_split_lines_nonempty, read_directive, read_directives, reply_command, reply_tokens,
    split_lines, without_backticks, ChatReply,
};
use crate::agent::summary_prompt;
use crate::cli::is_exit_word;
use crate::task::{
    with_command, with_description, with_id, with_priority, with_title, with_tools, TaskView,
    MAX_PRIORITY,
};
use crate::text::{eq_ignore_ascii_case, has_prefix, is_blank, trim};

verus! {

broadcast use vstd::utf8::group_utf8_lib;

/// An accepted update reads back: the field holds exactly the value written.
pub proof fn law_accepted_update_reads_back(
    t: TaskView,
    s: Seq<char>,
    tools: Seq<Seq<char>>,
    p: u32,
)
    ensures
        !is_blank(s) ==> with_command(t, s).command == s,
        !is_blank(s) ==> with_title(t, s).title == s,
        !is_blank(s) ==> with_description(t, s).description == s,
        !is_blank(s) ==> with_id(t, s).id == s,
        tools.len() > 0 ==> with_tools(t, tools).tool_to_use == tools,
        p <= MAX_PRIORITY ==> with_priority(t, p).priority == p,
{
}

/// A refused update leaves the task exactly as it was.
pub proof fn law_refused_update_keeps_task(
    t: TaskView,
    s: Seq<char>,
    tools: Seq<Seq<char>>,
    p: u32,
)
    ensures
        is_blank(s) ==> with_command(t, s) == t,
        is_blank(s) ==> with_title(t, s) == t,
        is_blank(s) ==> with_description(t, s) == t,
        is_blank(s) ==> with_id(t, s) == t,
        tools.len() == 0 ==> with_tools(t, tools) == t,
        p > MAX_PRIORITY ==> with_priority(t, p) == t,
{
}

/// A task whose priority is within 0..=10 keeps it there through any priority update.
pub proof fn law_priority_stays_bounded(t: TaskView, p: u32)
    requires
        t.priority <= MAX_PRIORITY,
    ensures
        with_priority(t, p).priority <= MAX_PRIORITY,
{
}

/// Once the token allowance is spent it stays spent: token counts only grow,
/// so every later request is refused.
pub proof fn law_spent_budget_stays_spent(used: usize, limit: usize, more: usize)
    requires
        budget_spent(used, limit),
        used + more <= usize::MAX,
    ensures
        budget_spent((used + more) as usize, limit),
{
}

/// After a message is recorded in a window of `n`, the conversation holds at
/// most `n` messages, ends with the new one, and is the end of the old
/// conversation with the new message added; nothing is dropped while it fits.
pub proof fn law_context_window<T>(history: Seq<T>, m: T, n: nat)
    requires
        n >= 1,
    ensures
        keep_last(history.push(m), n).len() <= n,
        keep_last(history.push(m), n).len() == if history.len() + 1 < n {
            history.len() + 1int
        } else {
            n as int
        },
        keep_last(history.push(m), n).last() == m,
        keep_last(history.push(m), n) == history.push(m).subrange(
            history.push(m).len() - keep_last(history.push(m), n).len(),
            history.push(m).len() as int,
        ),
        history.len() < n ==> keep_last(history.push(m), n) == history.push(m),
{
    let s = history.push(m);
    if s.len() <= n {
        assert(s.subrange(0, s.len() as int) =~= s);
    }
}

/// The conversation never holds more than ten messages: planning keeps at
/// most three, summarizing at most ten, and a failed step leaves it as it was.
pub proof fn law_history_at_most_ten<T>(history: Seq<T>, m: T)
    requires
        history.len() <= 10,
    ensures
        keep_last(history.push(m), 3).len() <= 10,
        keep_last(history.push(m), 10).len() <= 10,
{
}

/// Every UTF-8 encoding has a character boundary among any four consecutive
/// positions: at or at most three bytes before `e`.
pub proof fn lemma_boundary_within_three(bytes: Seq<u8>, e: int) -> (k: int)
    requires
        valid_utf8(bytes),
        0 <= e <= bytes.len(),
    ensures
        e - 3 <= k <= e,
        0 <= k,
        is_char_boundary(bytes, k),
    decreases bytes.len(),
{
    if e == 0 {
        0
    } else {
        let l = length_of_first_scalar(bytes);
        if e < l {
            0
        } else {
            let tail = pop_first_scalar(bytes);
            assert(tail.len() == bytes.len() - l);
            let k2 = lemma_boundary_within_three(tail, e - l);
            k2 + l
        }
    }
}

/// The output a summary request carries: whole when it encodes to at most 600
/// bytes; else text whose encoding is exactly the first bytes of the output's
/// encoding, between 597 and 600 bytes and ending between characters, then
/// the marker.
pub proof fn law_truncated_output(output: Seq<char>)
    ensures
        encode_utf8(output).len() <= SUMMARY_OUTPUT_BYTES ==> truncated_output(output) == output,
        encode_utf8(output).len() > SUMMARY_OUTPUT_BYTES ==> {
            let bytes = encode_utf8(output);
            let cut = char_cut(bytes, SUMMARY_OUTPUT_BYTES as int);
            let head = decode_utf8(bytes.subrange(0, cut));
            &&& truncated_output(output) == head + TRUNCATION_MARK@
            &&& SUMMARY_OUTPUT_BYTES - 3 <= cut <= SUMMARY_OUTPUT_BYTES
            &&& encode_utf8(head) == bytes.subrange(0, cut)
            &&& forall|k: int| cut < k <= SUMMARY_OUTPUT_BYTES ==> !is_char_boundary(bytes, k)
        },
{
    let bytes = encode_utf8(output);
    if bytes.len() > SUMMARY_OUTPUT_BYTES {
        lemma_char_cut(bytes, SUMMARY_OUTPUT_BYTES as int);
        let cut = char_cut(bytes, SUMMARY_OUTPUT_BYTES as int);
        valid_utf8_split(bytes, cut);
        let k = lemma_boundary_within_three(bytes, SUMMARY_OUTPUT_BYTES as int);
        assert(k <= cut);
    }
}

/// Whether a line, trimmed, starts with `CMD:`.
pub open spec fn is_command_line(line: Seq<char>) -> bool {
    has_prefix(trim(line), "CMD:"@)
}

/// Whether a line, trimmed, starts with `HIL:`.
pub open spec fn is_confirm_line(line: Seq<char>) -> bool {
    has_prefix(trim(line), "HIL:"@)
}

proof fn lemma_no_directives(lines: Seq<Seq<char>>)
    requires
        forall|i: int|
            0 <= i < lines.len() ==> !is_command_line(#[trigger] lines[i]) && !is_confirm_line(
                lines[i],
            ),
    ensures
        read_directives(lines) == (Seq::<char>::empty(), true),
    decreases lines.len(),
{
    if lines.len() > 0 {
        assert forall|i: int| 0 <= i < lines.drop_last().len() implies !is_command_line(
            #[trigger] lines.drop_last()[i],
        ) && !is_confirm_line(lines.drop_last()[i]) by {
            assert(lines.drop_last()[i] == lines[i]);
        }
        lemma_no_directives(lines.drop_last());
        assert(!is_command_line(lines[lines.len() - 1]));
    }
}

/// A reply without `CMD:` or `HIL:` lines asks for its whole text, backticks
/// removed and trimmed, with a human to confirm it.
pub proof fn law_plain_reply(content: Seq<char>)
    requires
        forall|i: int|
            0 <= i < split_lines(content).len() ==> !is_command_line(
                #[trigger] split_lines(content)[i],
            ) && !is_confirm_line(split_lines(content)[i]),
    ensures
        reply_command(content) == (trim(without_backticks(content)), true),
{
    lemma_no_directives(split_lines(content));
}

proof fn lemma_command_kept(before: Seq<Seq<char>>, after: Seq<Seq<char>>)
    requires
        forall|i: int| 0 <= i < after.len() ==> !is_command_line(#[trigger] after[i]),
    ensures
        read_directives(before + after).0 == read_directives(before).0,
    decreases after.len(),
{
    if after.len() > 0 {
        let shorter = after.drop_last();
        assert forall|i: int| 0 <= i < shorter.len() implies !is_command_line(
            #[trigger] shorter[i],
        ) by {
            assert(shorter[i] == after[i]);
        }
        lemma_command_kept(before, shorter);
        assert((before + after).drop_last() =~= before + shorter);
        assert((before + after).last() == after.last());
        assert(!is_command_line(after[after.len() - 1]));
    }
}

/// The last `CMD:` line decides the command: what follows it, trimmed.
pub proof fn law_last_command_line_wins(
    before: Seq<Seq<char>>,
    line: Seq<char>,
    after: Seq<Seq<char>>,
)
    requires
        is_command_line(line),
        forall|i: int| 0 <= i < after.len() ==> !is_command_line(#[trigger] after[i]),
    ensures
        read_directives(before.push(line) + after).0 == trim(trim(line).skip(4)),
{
    lemma_command_kept(before.push(line), after);
    assert(before.push(line).drop_last() =~= before);
}

proof fn lemma_confirm_default(lines: Seq<Seq<char>>)
    requires
        forall|i: int| 0 <= i < lines.len() ==> !is_confirm_line(#[trigger] lines[i]),
    ensures
        read_directives(lines).1,
    decreases lines.len(),
{
    if lines.len() > 0 {
        let shorter = lines.drop_last();
        assert forall|i: int| 0 <= i < shorter.len() implies !is_confirm_line(
            #[trigger] shorter[i],
        ) by {
            assert(shorter[i] == lines[i]);
        }
        lemma_confirm_default(shorter);
        assert(!is_confirm_line(lines[lines.len() - 1]));
    }
}

/// Without a `HIL:` line, a human must confirm the command.
pub proof fn law_confirmation_by_default(content: Seq<char>)
    requires
        forall|i: int|
            0 <= i < split_lines(content).len() ==> !is_confirm_line(
                #[trigger] split_lines(content)[i],
            ),
    ensures
        reply_command(content).1,
{
    lemma_confirm_default(split_lines(content));
}

/// Whether `l` holds no line feed.
pub open spec fn no_newline(l: Seq<char>) -> bool {
    forall|i: int| 0 <= i < l.len() ==> l[i] != '\n'
}

/// The text made of `ls`, one line each, with a line feed between two lines.
pub open spec fn join_lines(ls: Seq<Seq<char>>) -> Seq<char>
    decreases ls.len(),
{
    if ls.len() == 0 {
        Seq::empty()
    } else if ls.len() == 1 {
        ls[0]
    } else {
        join_lines(ls.drop_last()) + seq!['\n'] + ls.last()
    }
}

proof fn lemma_split_single(l: Seq<char>)
    requires
        no_newline(l),
    ensures
        split_lines(l) == seq![l],
    decreases l.len(),
{
    if l.len() > 0 {
        let p = l.drop_last();
        assert(no_newline(p)) by {
            assert forall|i: int| 0 <= i < p.len() implies p[i] != '\n' by {
                assert(p[i] == l[i]);
            }
        }
        lemma_split_single(p);
        assert(l.last() != '\n');
        assert(p.push(l.last()) =~= l);
        assert(seq![p].update(0, p.push(l.last())) =~= seq![l]);
    } else {
        assert(l =~= Seq::<char>::empty());
    }
}

proof fn lemma_split_concat(a: Seq<char>, b: Seq<char>)
    ensures
        split_lines(a + seq!['\n'] + b) == split_lines(a) + split_lines(b),
    decreases b.len(),
{
    let s = a + seq!['\n'] + b;
    if b.len() == 0 {
        assert(s.drop_last() =~= a);
        assert(s.last() == '\n');
        assert(split_lines(a).push(Seq::<char>::empty()) =~= split_lines(a) + seq![
            Seq::<char>::empty(),
        ]);
    } else {
        let b1 = b.drop_last();
        lemma_split_concat(a, b1);
        assert(s.drop_last() =~= a + seq!['\n'] + b1);
        assert(s.last() == b.last());
        let sa = split_lines(a);
        let sb = split_lines(b1);
        lemma_split_lines_nonempty(b1);
        if b.last() == '\n' {
            assert((sa + sb).push(Seq::<char>::empty()) =~= sa + sb.push(Seq::<char>::empty()));
        } else {
            let whole = sa + sb;
            assert(whole.last() == sb.last());
            assert(whole.update(whole.len() - 1, whole.last().push(b.last())) =~= sa + sb.update(
                sb.len() - 1,
                sb.last().push(b.last()),
            ));
        }
    }
}

/// Joining lines without line feeds and splitting the text again gives the lines back.
pub proof fn law_split_joined_lines(ls: Seq<Seq<char>>)
    requires
        ls.len() >= 1,
        forall|i: int| 0 <= i < ls.len() ==> no_newline(#[trigger] ls[i]),
    ensures
        split_lines(join_lines(ls)) == ls,
    decreases ls.len(),
{
    if ls.len() == 1 {
        lemma_split_single(ls[0]);
        assert(seq![ls[0]] =~= ls);
    } else {
        let p = ls.drop_last();
        assert forall|i: int| 0 <= i < p.len() implies no_newline(#[trigger] p[i]) by {
            assert(p[i] == ls[i]);
        }
        law_split_joined_lines(p);
        lemma_split_concat(join_lines(p), ls.last());
        lemma_split_single(ls.last());
        assert(p + seq![ls.last()] =~= ls);
    }
}

proof fn lemma_tags_differ(t: Seq<char>)
    ensures
        has_prefix(t, "HIL:"@) ==> !has_prefix(t, "CMD:"@),
{
    reveal_strlit("HIL:");
    reveal_strlit("CMD:");
    if has_prefix(t, "HIL:"@) && has_prefix(t, "CMD:"@) {
        assert(t.subrange(0, 4)[0] == 'H');
        assert(t.subrange(0, 4)[0] == 'C');
    }
}

proof fn lemma_flag_from_line(ls: Seq<Seq<char>>, k: int)
    requires
        0 <= k < ls.len(),
        is_confirm_line(ls[k]),
        forall|j: int| k < j < ls.len() ==> !is_confirm_line(#[trigger] ls[j]),
    ensures
        read_directives(ls).1 == eq_ignore_ascii_case(trim(trim(ls[k]).skip(4)), "true"@),
    decreases ls.len(),
{
    let last = ls[ls.len() - 1];
    lemma_tags_differ(trim(last));
    if k < ls.len() - 1 {
        let p = ls.drop_last();
        assert forall|j: int| k < j < p.len() implies !is_confirm_line(#[trigger] p[j]) by {
            assert(p[j] == ls[j]);
        }
        assert(p[k] == ls[k]);
        lemma_flag_from_line(p, k);
        assert(!is_confirm_line(last));
    }
}

/// The human-confirmation flag is read from the last `HIL:` line: it is set
/// exactly when the rest of that line, trimmed, is `true` in any ASCII case,
/// so `true`, `True` or `TRUE` all ask for a human to confirm the command.
pub proof fn law_confirmation_flag_from_last_hil_line(ls: Seq<Seq<char>>, k: int)
    requires
        forall|i: int| 0 <= i < ls.len() ==> no_newline(#[trigger] ls[i]),
        0 <= k < ls.len(),
        is_confirm_line(ls[k]),
        forall|j: int| k < j < ls.len() ==> !is_confirm_line(#[trigger] ls[j]),
    ensures
        reply_command(join_lines(ls)).1 == eq_ignore_ascii_case(
            trim(trim(ls[k]).skip(4)),
            "true"@,
        ),
        ({
            let v = trim(trim(ls[k]).skip(4));
            v.len() == 4 && (forall|i: int|
                0 <= i < 4 ==> v[i] == seq!['t', 'r', 'u', 'e'][i] || v[i] == seq![
                    'T',
                    'R',
                    'U',
                    'E',
                ][i])
        }) ==> reply_command(join_lines(ls)).1,
        ({
            let v = trim(trim(ls[k]).skip(4));
            v.len() != 4
        }) ==> !reply_command(join_lines(ls)).1,
{
    law_split_joined_lines(ls);
    lemma_flag_from_line(ls, k);
    reveal_strlit("true");
    let v = trim(trim(ls[k]).skip(4));
    if v.len() == 4 && (forall|i: int|
        0 <= i < 4 ==> v[i] == seq!['t', 'r', 'u', 'e'][i] || v[i] == seq!['T', 'R', 'U', 'E'][i])
    {
        assert forall|i: int| 0 <= i < v.len() implies crate::text::ascii_lower(#[trigger] v[i])
            == crate::text::ascii_lower("true"@[i]) by {
            assert(v[i] == seq!['t', 'r', 'u', 'e'][i] || v[i] == seq!['T', 'R', 'U', 'E'][i]);
        }
    }
}

/// Recording a message in a window of `n` keeps exactly the last
/// `min(|s|, n)` messages, in their order.
pub proof fn law_window_keeps_exactly_the_last(s: Seq<char>, n: nat)
    ensures
        keep_last(s, n).len() == if s.len() < n {
            s.len() as int
        } else {
            n as int
        },
        forall|i: int|
            0 <= i < keep_last(s, n).len() ==> #[trigger] keep_last(s, n)[i] == s[s.len()
                - keep_last(s, n).len() + i],
{
}

/// A successful reply that reports `t` tokens is counted as exactly `t`
/// tokens; one that reports none is counted as none.
pub proof fn law_reported_tokens_are_counted(t: u64, content: Option<String>)
    requires
        t <= usize::MAX,
    ensures
        reply_tokens(ChatReply::Completed { total_tokens: Some(t), content }) == t,
        reply_tokens(ChatReply::Completed { total_tokens: None, content }) == 0,
{
}

/// `exit` and `quit` in any mix of ASCII upper and lower case leave the prompt.
pub proof fn law_exit_words_in_any_case(t: Seq<char>)
    ensures
        t.len() == 4 && (forall|i: int|
            0 <= i < 4 ==> t[i] == seq!['e', 'x', 'i', 't'][i] || t[i] == seq!['E', 'X', 'I', 'T'][i])
            ==> is_exit_word(t),
        t.len() == 4 && (forall|i: int|
            0 <= i < 4 ==> t[i] == seq!['q', 'u', 'i', 't'][i] || t[i] == seq!['Q', 'U', 'I', 'T'][i])
            ==> is_exit_word(t),
{
    reveal_strlit("exit");
    reveal_strlit("quit");
    if t.len() == 4 && (forall|i: int|
        0 <= i < 4 ==> t[i] == seq!['e', 'x', 'i', 't'][i] || t[i] == seq!['E', 'X', 'I', 'T'][i])
    {
        assert forall|i: int| 0 <= i < t.len() implies crate::text::ascii_lower(#[trigger] t[i])
            == crate::text::ascii_lower("exit"@[i]) by {
            assert(t[i] == seq!['e', 'x', 'i', 't'][i] || t[i] == seq!['E', 'X', 'I', 'T'][i]);
        }
    }
    if t.len() == 4 && (forall|i: int|
        0 <= i < 4 ==> t[i] == seq!['q', 'u', 'i', 't'][i] || t[i] == seq!['Q', 'U', 'I', 'T'][i])
    {
        assert forall|i: int| 0 <= i < t.len() implies crate::text::ascii_lower(#[trigger] t[i])
            == crate::text::ascii_lower("quit"@[i]) by {
            assert(t[i] == seq!['q', 'u', 'i', 't'][i] || t[i] == seq!['Q', 'U', 'I', 'T'][i]);
        }
    }
}

/// The summary prompt carries the command and the whole (cut) output between
/// its fixed texts; output of at most 600 bytes reaches the model whole.
pub proof fn law_summary_prompt_carries_output(command: Seq<char>, output: Seq<char>)
    ensures
        summary_prompt(command, output) == "Command executed: `"@ + command + "`\nOutput:\n"@
            + output + "\n\nProvide a very short, beautifully formatted summary of this output."@,
        encode_utf8(output).len() <= SUMMARY_OUTPUT_BYTES ==> summary_prompt(
            command,
            truncated_output(output),
        ) == "Command executed: `"@ + command + "`\nOutput:\n"@ + output
            + "\n\nProvide a very short, beautifully formatted summary of this output."@,
{
}

/// The command a reply asks for is the rest of its last `CMD:` line, trimmed,
/// whenever that is not empty; the flag comes from the `HIL:` lines alone.
pub proof fn law_command_from_last_cmd_line(ls: Seq<Seq<char>>, k: int)
    requires
        forall|i: int| 0 <= i < ls.len() ==> no_newline(#[trigger] ls[i]),
        0 <= k < ls.len(),
        is_command_line(ls[k]),
        forall|j: int| k < j < ls.len() ==> !is_command_line(#[trigger] ls[j]),
        trim(trim(ls[k]).skip(4)).len() > 0,
    ensures
        reply_command(join_lines(ls)).0 == trim(trim(ls[k]).skip(4)),
{
    law_split_joined_lines(ls);
    let before = ls.take(k);
    let after = ls.skip(k + 1);
    assert(before.push(ls[k]) + after =~= ls);
    assert forall|i: int| 0 <= i < after.len() implies !is_command_line(#[trigger] after[i]) by {
        assert(after[i] == ls[k + 1 + i]);
    }
    law_last_command_line_wins(before, ls[k], after);
}

} // verus!
