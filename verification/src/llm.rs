//! The language model as the agent sees it: the chat requests it is sent, the
//! replies it gives, and the command that a reply asks for.
use vstd::prelude::*;
use vstd::string::*;

use crate::error::{is_llm_error, AgentError};
use crate::task::{strings_view, Task, TaskStatus, TaskView};
use crate::text::{
    chars_of, eq_ignore_ascii_case, has_prefix, range_eq_ignore_ascii_case, range_has_prefix,
    trim, trim_bounds, trim_str,
};
use crate::tool::{ToolResult, ToolResultView};

verus! {

broadcast use vstd::string::group_string_axioms;

/// One chat message: who speaks and what is said.
#[derive(Debug, Clone)]
pub struct Message {
    pub role: String,
    pub content: String,
}

/// A message as plain values.
pub struct MessageView {
    pub role: Seq<char>,
    pub content: Seq<char>,
}

impl View for Message {
    type V = MessageView;

    open spec fn view(&self) -> MessageView {
        MessageView { role: self.role@, content: self.content@ }
    }
}

/// The views of a list of messages.
pub open spec fn messages_view(ms: Seq<Message>) -> Seq<MessageView> {
    ms.map_values(|m: Message| m@)
}

/// Where the model is reached, which model, and with which key.
pub struct Llm {
    base_url: String,
    model: String,
    api_key: String,
}

/// A model endpoint as plain values.
pub struct LlmView {
    pub base_url: Seq<char>,
    pub model: Seq<char>,
    pub api_key: Seq<char>,
}

impl View for Llm {
    type V = LlmView;

    closed spec fn view(&self) -> LlmView {
        LlmView { base_url: self.base_url@, model: self.model@, api_key: self.api_key@ }
    }
}

/// A chat completion request, ready to be sent: the endpoint, the value of the
/// `Authorization` header, the model, the conversation, the token allowance and
/// the sampling temperature in tenths.
pub struct ChatRequest {
    pub url: String,
    pub authorization: String,
    pub model: String,
    pub messages: Vec<Message>,
    pub max_tokens: u32,
    pub temperature_tenths: u32,
}

/// What came back for a chat request.
pub enum ChatReply {
    /// The request could not be sent, or its reply could not be read; the reason.
    Failed(String),
    /// The endpoint answered with a status other than success: the status line
    /// and the body it sent.
    Rejected { status: String, body: String },
    /// A successful reply: the total token count it reports, if any, and the
    /// content of its first choice's message, if any.
    Completed { total_tokens: Option<u64>, content: Option<String> },
}

/// The system message that asks for a short summary.
pub const SUMMARY_SYSTEM_PROMPT: &'static str =
    "You are a concise AI. Summarize or format the shell output beautifully in max 3 sentences to save tokens.";

/// The message that a chat request fails with, when it fails.
pub open spec fn reply_error_text(reply: ChatReply) -> Option<Seq<char>> {
    match reply {
        ChatReply::Failed(m) => Some(m@),
        ChatReply::Rejected { status, body } => Some(
            "Request failed "@ + status@ + ": "@ + body@,
        ),
        ChatReply::Completed { content: None, .. } => Some("No content field in LLM response"@),
        ChatReply::Completed { content: Some(_), .. } => None,
    }
}

/// The content of a successful reply.
pub open spec fn reply_content(reply: ChatReply) -> Seq<char> {
    match reply {
        ChatReply::Completed { content: Some(c), .. } => c@,
        _ => Seq::empty(),
    }
}

/// The tokens a reply is counted as using: its reported total, or 0 when it
/// reports none.
pub open spec fn reply_tokens(reply: ChatReply) -> usize {
    match reply {
        ChatReply::Completed { total_tokens: Some(t), .. } => t as usize,
        _ => 0,
    }
}

/// The lines of `s`, split at each `'\n'`; a final empty line stands for the
/// end after a trailing line feed.
pub open spec fn split_lines(s: Seq<char>) -> Seq<Seq<char>>
    decreases s.len(),
{
    if s.len() == 0 {
        seq![Seq::empty()]
    } else {
        let prev = split_lines(s.drop_last());
        if s.last() == '\n' {
            prev.push(Seq::empty())
        } else {
            prev.update(prev.len() - 1, prev.last().push(s.last()))
        }
    }
}

/// The command and human-in-the-loop flag after reading one more line: a line
/// that starts with `CMD:` once trimmed sets the command to the rest of it,
/// trimmed; one that starts with `HIL:` sets the flag to whether the rest,
/// trimmed, is `true` in any ASCII case; other lines change nothing.
pub open spec fn read_directive(st: (Seq<char>, bool), line: Seq<char>) -> (Seq<char>, bool) {
    let t = trim(line);
    if has_prefix(t, "CMD:"@) {
        (trim(t.skip(4)), st.1)
    } else if has_prefix(t, "HIL:"@) {
        (st.0, eq_ignore_ascii_case(trim(t.skip(4)), "true"@))
    } else {
        st
    }
}

/// The command and flag after reading `lines` in order, from no command and
/// the flag set.
pub open spec fn read_directives(lines: Seq<Seq<char>>) -> (Seq<char>, bool)
    decreases lines.len(),
{
    if lines.len() == 0 {
        (Seq::empty(), true)
    } else {
        read_directive(read_directives(lines.drop_last()), lines.last())
    }
}

/// `s` with every backtick removed.
pub open spec fn without_backticks(s: Seq<char>) -> Seq<char>
    decreases s.len(),
{
    if s.len() == 0 {
        s
    } else if s.last() == '`' {
        without_backticks(s.drop_last())
    } else {
        without_backticks(s.drop_last()).push(s.last())
    }
}

/// The command a reply asks for, and whether a human must confirm it: the
/// `CMD:` and `HIL:` lines decide; when they give no command, the whole reply,
/// with backticks removed and trimmed, is the command.
pub open spec fn reply_command(content: Seq<char>) -> (Seq<char>, bool) {
    let (cmd, hil) = read_directives(split_lines(content));
    if cmd.len() == 0 {
        (trim(without_backticks(content)), hil)
    } else {
        (cmd, hil)
    }
}

/// The task made for a command: id `1`, the shell as its tool, priority 1, pending.
pub open spec fn command_task(cmd: Seq<char>, hil: bool) -> TaskView {
    TaskView {
        id: "1"@,
        title: "Generated Command"@,
        description: "Direct command execution"@,
        tool_to_use: seq!["shell"@],
        command: cmd,
        priority: 1,
        human_in_loop: hil,
        status: TaskStatus::Pending,
    }
}

/// A text always has at least one line.
pub proof fn lemma_split_lines_nonempty(s: Seq<char>)
    ensures
        split_lines(s).len() >= 1,
    decreases s.len(),
{
    if s.len() > 0 {
        lemma_split_lines_nonempty(s.drop_last());
    }
}

/// The copy of a message.
pub fn copy_message(m: &Message) -> (r: Message)
    ensures
        r@ == m@,
{
    Message { role: m.role.clone(), content: m.content.clone() }
}

/// A copy of a list of messages.
pub fn copy_messages(ms: &Vec<Message>) -> (r: Vec<Message>)
    ensures
        messages_view(r@) == messages_view(ms@),
{
    let mut r: Vec<Message> = Vec::new();
    let mut k: usize = 0;
    while k < ms.len()
        invariant
            k <= ms@.len(),
            messages_view(r@) == messages_view(ms@.take(k as int)),
        decreases ms@.len() - k,
    {
        r.push(copy_message(&ms[k]));
        assert(messages_view(ms@.take(k + 1)) =~= messages_view(ms@.take(k as int)).push(
            ms@[k as int]@,
        ));
        assert(messages_view(r@) =~= messages_view(ms@.take(k + 1)));
        k = k + 1;
    }
    assert(ms@.take(ms@.len() as int) == ms@);
    r
}

/// The bounds, in `v`, of the command after reading the line `v[lo..hi]`,
/// and the flag after it.
fn read_line(
    v: &Vec<char>,
    lo: usize,
    hi: usize,
    cmd_lo: usize,
    cmd_hi: usize,
    hil: bool,
    cmd_tag: &Vec<char>,
    hil_tag: &Vec<char>,
    yes: &Vec<char>,
) -> (r: (usize, usize, bool))
    requires
        lo <= hi <= v@.len(),
        cmd_lo <= cmd_hi <= v@.len(),
        cmd_tag@ == "CMD:"@,
        hil_tag@ == "HIL:"@,
        yes@ == "true"@,
        cmd_tag@.len() == 4,
        hil_tag@.len() == 4,
    ensures
        r.0 <= r.1 <= v@.len(),
        (v@.subrange(r.0 as int, r.1 as int), r.2) == read_directive(
            (v@.subrange(cmd_lo as int, cmd_hi as int), hil),
            v@.subrange(lo as int, hi as int),
        ),
{
    let (a, b) = trim_bounds(v, lo, hi);
    let ghost t = v@.subrange(a as int, b as int);
    if range_has_prefix(v, a, b, cmd_tag) {
        assert(t.skip(4) =~= v@.subrange(a + 4, b as int));
        let (c0, c1) = trim_bounds(v, a + 4, b);
        (c0, c1, hil)
    } else if range_has_prefix(v, a, b, hil_tag) {
        assert(t.skip(4) =~= v@.subrange(a + 4, b as int));
        let (h0, h1) = trim_bounds(v, a + 4, b);
        let flag = range_eq_ignore_ascii_case(v, h0, h1, yes);
        (cmd_lo, cmd_hi, flag)
    } else {
        (cmd_lo, cmd_hi, hil)
    }
}

/// `s` with every backtick removed.
pub fn strip_backticks(s: &str) -> (r: String)
    ensures
        r@ == without_backticks(s@),
{
    let v = chars_of(s);
    let mut out = String::new();
    let mut run: usize = 0;
    let mut i: usize = 0;
    while i < v.len()
        invariant
            v@ == s@,
            run <= i <= v@.len(),
            out@ + v@.subrange(run as int, i as int) == without_backticks(v@.take(i as int)),
        decreases v@.len() - i,
    {
        assert(v@.take(i + 1).drop_last() =~= v@.take(i as int));
        if v[i] == '`' {
            out.append(s.substring_char(run, i));
            run = i + 1;
            assert(v@.subrange(run as int, i + 1) =~= Seq::<char>::empty());
        } else {
            assert(v@.subrange(run as int, i + 1) =~= v@.subrange(run as int, i as int).push(
                v@[i as int],
            ));
        }
        i = i + 1;
    }
    out.append(s.substring_char(run, v.len()));
    assert(v@.take(v@.len() as int) == v@);
    out
}

/// The command a model reply asks for and whether a human must confirm it.
pub fn parse_command_reply(content: &str) -> (r: (String, bool))
    ensures
        (r.0@, r.1) == reply_command(content@),
{
    proof {
        reveal_strlit("CMD:");
        reveal_strlit("HIL:");
        reveal_strlit("true");
    }
    let v = chars_of(content);
    let cmd_tag = chars_of("CMD:");
    let hil_tag = chars_of("HIL:");
    let yes = chars_of("true");
    let mut cmd_lo: usize = 0;
    let mut cmd_hi: usize = 0;
    let mut hil = true;
    let mut start: usize = 0;
    let mut i: usize = 0;
    proof {
        assert(v@.take(0) =~= Seq::<char>::empty());
        assert(split_lines(v@.take(0)).drop_last() =~= Seq::<Seq<char>>::empty());
        assert(v@.subrange(0, 0) =~= Seq::<char>::empty());
    }
    while i < v.len()
        invariant
            v@ == content@,
            start <= i <= v@.len(),
            cmd_lo <= cmd_hi <= v@.len(),
            cmd_tag@ == "CMD:"@,
            hil_tag@ == "HIL:"@,
            yes@ == "true"@,
            cmd_tag@.len() == 4,
            hil_tag@.len() == 4,
            split_lines(v@.take(i as int)).last() == v@.subrange(start as int, i as int),
            read_directives(split_lines(v@.take(i as int)).drop_last()) == (
                v@.subrange(cmd_lo as int, cmd_hi as int),
                hil,
            ),
        decreases v@.len() - i,
    {
        let ghost prev = split_lines(v@.take(i as int));
        proof {
            lemma_split_lines_nonempty(v@.take(i as int));
            assert(v@.take(i + 1).drop_last() =~= v@.take(i as int));
            assert(v@.take(i + 1).last() == v@[i as int]);
            assert(prev.drop_last().push(prev.last()) =~= prev);
        }
        if v[i] == '\n' {
            let (c0, c1, h) = read_line(
                &v,
                start,
                i,
                cmd_lo,
                cmd_hi,
                hil,
                &cmd_tag,
                &hil_tag,
                &yes,
            );
            cmd_lo = c0;
            cmd_hi = c1;
            hil = h;
            start = i + 1;
            proof {
                assert(split_lines(v@.take(i + 1)) == prev.push(Seq::<char>::empty()));
                assert(prev.push(Seq::<char>::empty()).drop_last() =~= prev);
                assert(v@.subrange(start as int, i + 1) =~= Seq::<char>::empty());
            }
        } else {
            proof {
                let next = prev.update(prev.len() - 1, prev.last().push(v@[i as int]));
                assert(split_lines(v@.take(i + 1)) == next);
                assert(next.drop_last() =~= prev.drop_last());
                assert(next.last() =~= v@.subrange(start as int, i + 1));
            }
        }
        i = i + 1;
    }
    let ghost lines = split_lines(v@);
    proof {
        assert(v@.take(v@.len() as int) == v@);
        lemma_split_lines_nonempty(v@);
        assert(lines.drop_last().push(lines.last()) =~= lines);
    }
    let (c0, c1, h) = read_line(&v, start, v.len(), cmd_lo, cmd_hi, hil, &cmd_tag, &hil_tag, &yes);
    if c0 == c1 {
        let stripped = strip_backticks(content);
        (trim_str(stripped.as_str()), h)
    } else {
        (String::from_str(content.substring_char(c0, c1)), h)
    }
}

/// The task made for the command a reply asks for.
pub fn command_task_from(cmd: String, hil: bool) -> (t: Task)
    ensures
        t@ == command_task(cmd@, hil),
{
    let mut tools: Vec<String> = Vec::new();
    tools.push(String::from_str("shell"));
    let t = Task {
        id: String::from_str("1"),
        title: String::from_str("Generated Command"),
        description: String::from_str("Direct command execution"),
        tool_to_use: tools,
        command: cmd,
        priority: 1,
        human_in_loop: hil,
        status: TaskStatus::Pending,
    };
    assert(strings_view(t.tool_to_use@) =~= seq!["shell"@]);
    t
}

fn reply_failure(reply: &ChatReply) -> (r: Option<AgentError>)
    ensures
        r is Some <==> reply_error_text(*reply) is Some,
        r is Some ==> is_llm_error::<()>(Err(r->0), reply_error_text(*reply)->0),
{
    match reply {
        ChatReply::Failed(m) => Some(AgentError::LlmError(m.clone())),
        ChatReply::Rejected { status, body } => {
            let msg = String::from_str("Request failed ").concat(status.as_str()).concat(
                ": ",
            ).concat(body.as_str());
            Some(AgentError::LlmError(msg))
        },
        ChatReply::Completed { content: None, .. } => Some(
            AgentError::LlmError(String::from_str("No content field in LLM response")),
        ),
        ChatReply::Completed { content: Some(_), .. } => None,
    }
}

fn tokens_of(total_tokens: Option<u64>) -> (r: usize)
    ensures
        r == (match total_tokens {
            Some(t) => t as usize,
            None => 0usize,
        }),
{
    match total_tokens {
        Some(t) => t as usize,
        None => 0,
    }
}

impl Llm {
    /// A model endpoint: its URL, the model's name and the API key.
    pub fn new(base_url: String, model: String, api_key: String) -> (r: Self)
        ensures
            r@ == (LlmView { base_url: base_url@, model: model@, api_key: api_key@ }),
    {
        Llm { base_url, model, api_key }
    }

    /// The value of the `Authorization` header: `Bearer ` and the key.
    pub fn authorization(&self) -> (r: String)
        ensures
            r@ == "Bearer "@ + self@.api_key,
    {
        String::from_str("Bearer ").concat(self.api_key.as_str())
    }

    /// The request that asks the model to plan tasks from `messages`: up to
    /// 2048 tokens, temperature 0.7.
    pub fn tasks_request(&self, messages: &Vec<Message>) -> (r: ChatRequest)
        ensures
            r.url@ == self@.base_url,
            r.authorization@ == "Bearer "@ + self@.api_key,
            r.model@ == self@.model,
            messages_view(r.messages@) == messages_view(messages@),
            r.max_tokens == 2048,
            r.temperature_tenths == 7,
    {
        ChatRequest {
            url: self.base_url.clone(),
            authorization: self.authorization(),
            model: self.model.clone(),
            messages: copy_messages(messages),
            max_tokens: 2048,
            temperature_tenths: 7,
        }
    }

    /// The request that asks the model to summarize: the summary system
    /// message, then `prompt` from the user; up to 150 tokens, temperature 0.3.
    pub fn summary_request(&self, prompt: &str) -> (r: ChatRequest)
        ensures
            r.url@ == self@.base_url,
            r.authorization@ == "Bearer "@ + self@.api_key,
            r.model@ == self@.model,
            messages_view(r.messages@) == seq![
                MessageView { role: "system"@, content: SUMMARY_SYSTEM_PROMPT@ },
                MessageView { role: "user"@, content: prompt@ },
            ],
            r.max_tokens == 150,
            r.temperature_tenths == 3,
    {
        let mut messages: Vec<Message> = Vec::new();
        messages.push(
            Message {
                role: String::from_str("system"),
                content: String::from_str(SUMMARY_SYSTEM_PROMPT),
            },
        );
        messages.push(Message { role: String::from_str("user"), content: String::from_str(prompt) });
        let r = ChatRequest {
            url: self.base_url.clone(),
            authorization: self.authorization(),
            model: self.model.clone(),
            messages,
            max_tokens: 150,
            temperature_tenths: 3,
        };
        assert(messages_view(r.messages@) =~= seq![
            MessageView { role: "system"@, content: SUMMARY_SYSTEM_PROMPT@ },
            MessageView { role: "user"@, content: prompt@ },
        ]);
        r
    }

    /// The tasks that a reply to a planning request gives, and the tokens it
    /// used: one task running the command the reply asks for. A failed or
    /// rejected request, or a reply without content, is a model error.
    pub fn generate_tasks(&self, reply: ChatReply) -> (r: Result<(Vec<Task>, usize), AgentError>)
        ensures
            reply_error_text(reply) matches Some(m) ==> is_llm_error(r, m),
            reply_error_text(reply) is None ==> (r matches Ok((tasks, tokens)) && tokens
                == reply_tokens(reply) && tasks@.len() == 1 && tasks@[0]@ == command_task(
                reply_command(reply_content(reply)).0,
                reply_command(reply_content(reply)).1,
            )),
    {
        if let Some(e) = reply_failure(&reply) {
            return Err(e);
        }
        match reply {
            ChatReply::Completed { total_tokens, content: Some(c) } => {
                let tokens = tokens_of(total_tokens);
                let (cmd, hil) = parse_command_reply(c.as_str());
                let mut tasks: Vec<Task> = Vec::new();
                tasks.push(command_task_from(cmd, hil));
                Ok((tasks, tokens))
            },
            _ => Err(AgentError::LlmError(String::new())),
        }
    }

    /// The summary that a reply to a summary request gives, and the tokens it
    /// used. A failed or rejected request, or a reply without content, is a
    /// model error.
    pub fn generate_summary(&self, reply: ChatReply) -> (r: Result<(String, usize), AgentError>)
        ensures
            reply_error_text(reply) matches Some(m) ==> is_llm_error(r, m),
            reply_error_text(reply) is None ==> (r matches Ok((summary, tokens)) && tokens
                == reply_tokens(reply) && summary@ == reply_content(reply)),
    {
        if let Some(e) = reply_failure(&reply) {
            return Err(e);
        }
        match reply {
            ChatReply::Completed { total_tokens, content: Some(c) } => {
                let tokens = tokens_of(total_tokens);
                Ok((c, tokens))
            },
            _ => Err(AgentError::LlmError(String::new())),
        }
    }

    /// The action for a prompt: as yet always a successful empty result with status `0`.
    pub fn generate_action(&self, prompt: &str) -> (r: Result<ToolResult, AgentError>)
        ensures
            r matches Ok(res) && res@ == (ToolResultView {
                status: "0"@,
                output: Seq::empty(),
                error: Seq::empty(),
            }),
    {
        Ok(ToolResult { status: String::from_str("0"), output: String::new(), error: String::new() })
    }
}

} // verus!
