//! The agent: its token budget, its context window, and the steps of planning,
//! acting and summarizing around each exchange with the model.
use vstd::prelude::*;
use vstd::string::*;
use vstd::utf8::*;

use crate::error::{is_input_error, is_llm_error, is_rate_limit_error, AgentError};
use crate::llm::{
    command_task, messages_view, reply_command, reply_content, reply_error_text,
    reply_tokens, ChatReply, ChatRequest, Llm, LlmView, Message, MessageView,
    SUMMARY_SYSTEM_PROMPT,
};
use crate::task::Task;
use crate::text::{decimal, is_blank, is_blank_str, push_decimal};
use crate::tool::{Tool, ToolResult, ToolResultView};

verus! {

broadcast use vstd::string::group_string_axioms, vstd::utf8::group_utf8_lib, vstd::slice::group_slice_axioms;

/// The agent: the model it asks, its tools, the conversation so far, and how
/// many tokens it has used out of its allowance.
pub struct Agent {
    pub llm: Llm,
    pub tools: Vec<Tool>,
    pub history: Vec<Message>,
    pub max_iterations: u32,
    pub total_tokens_used: usize,
    pub token_limit: usize,
}

/// The token allowance of a new agent.
pub const DEFAULT_TOKEN_LIMIT: usize = 1_000_000;

/// How many messages the conversation keeps after a planning request.
pub const THINK_WINDOW: usize = 3;

/// How many messages the conversation keeps after a summary.
pub const SUMMARY_WINDOW: usize = 10;

/// How many bytes of command output a summary request carries at most.
pub const SUMMARY_OUTPUT_BYTES: usize = 600;

/// The text of a planning prompt before the user's request.
pub const THINK_PROMPT_HEAD: &'static str = "You are a fast Linux shell AI. User request: ";

/// The text of a planning prompt after the user's request.
pub const THINK_PROMPT_TAIL: &'static str = "\n\n\
    Return exactly ONE bash command to satisfy this request.\n\
    Format your response EXACTLY like this, with NO markdown and NO explanations:\n\
    CMD: <bash command here>\n\
    HIL: <true/false>\n\n\
    RULES FOR HIL:\n\
    - MUST be false for ALL safe/read operations (like ls, cat, echo, pwd, uname, free, df, grep, find).\n\
    - MUST be true ONLY for destructive/write operations (like rm, mv, cp, mkdir, touch, systemctl, chmod).\n\n\
    CRITICAL: DO NOT explain the command. DO NOT write conversational text. Output ONLY the CMD and HIL lines.\n\n\
    Example:\n\
    User request: delete the build folder\n\
    CMD: rm -rf build\n\
    HIL: true";

/// The marker appended to output that was cut short.
pub const TRUNCATION_MARK: &'static str = "...\n[TRUNCATED to save tokens]";

/// Whether the agent has used up its token allowance.
pub open spec fn budget_spent(used: usize, limit: usize) -> bool {
    used >= limit
}

/// The message of a refusal for a spent allowance.
pub open spec fn limit_text(limit: usize, used: usize) -> Seq<char> {
    "Token limit of "@ + decimal(limit as nat) + " reached. Current usage: "@ + decimal(
        used as nat,
    )
}

/// The prompt that asks the model to plan for `request`.
pub open spec fn think_prompt(request: Seq<char>) -> Seq<char> {
    THINK_PROMPT_HEAD@ + request + THINK_PROMPT_TAIL@
}

/// The prompt that asks the model to summarize `output` of `command`.
pub open spec fn summary_prompt(command: Seq<char>, output: Seq<char>) -> Seq<char> {
    "Command executed: `"@ + command + "`\nOutput:\n"@ + output
        + "\n\nProvide a very short, beautifully formatted summary of this output."@
}

/// The last `n` items of `s`, or all of them when there are no more than `n`.
pub open spec fn keep_last<T>(s: Seq<T>, n: nat) -> Seq<T> {
    if s.len() > n {
        s.subrange(s.len() - n, s.len() as int)
    } else {
        s
    }
}

/// The largest character boundary of `bytes` that is at most `end`.
pub open spec fn char_cut(bytes: Seq<u8>, end: int) -> int
    decreases end,
{
    if end <= 0 {
        0
    } else if is_char_boundary(bytes, end) {
        end
    } else {
        char_cut(bytes, end - 1)
    }
}

/// Command output as a summary request carries it: whole when its UTF-8
/// encoding has at most 600 bytes; else the characters of its longest encoded
/// prefix of at most 600 bytes that ends between characters, then the marker.
pub open spec fn truncated_output(output: Seq<char>) -> Seq<char> {
    let bytes = encode_utf8(output);
    if bytes.len() > SUMMARY_OUTPUT_BYTES {
        decode_utf8(bytes.subrange(0, char_cut(bytes, SUMMARY_OUTPUT_BYTES as int)))
            + TRUNCATION_MARK@
    } else {
        output
    }
}

/// Whether `a` and `b` have the same model, tools, iteration limit and allowance.
pub open spec fn same_settings(a: Agent, b: Agent) -> bool {
    &&& a.llm == b.llm
    &&& a.tools == b.tools
    &&& a.max_iterations == b.max_iterations
    &&& a.token_limit == b.token_limit
}

/// The message a user request is recorded as.
pub open spec fn user_message(content: Seq<char>) -> MessageView {
    MessageView { role: "user"@, content }
}

/// The message a summary is recorded as.
pub open spec fn assistant_message(content: Seq<char>) -> MessageView {
    MessageView { role: "assistant"@, content }
}

/// Whether `r` is the planning request for the conversation `history` to `llm`.
pub open spec fn is_tasks_request(r: ChatRequest, llm: LlmView, history: Seq<MessageView>) -> bool {
    &&& r.url@ == llm.base_url
    &&& r.authorization@ == "Bearer "@ + llm.api_key
    &&& r.model@ == llm.model
    &&& messages_view(r.messages@) == history
    &&& r.max_tokens == 2048
    &&& r.temperature_tenths == 7
}

/// Whether `r` is the summary request for `prompt` to `llm`.
pub open spec fn is_summary_request(r: ChatRequest, llm: LlmView, prompt: Seq<char>) -> bool {
    &&& r.url@ == llm.base_url
    &&& r.authorization@ == "Bearer "@ + llm.api_key
    &&& r.model@ == llm.model
    &&& messages_view(r.messages@) == seq![
        MessageView { role: "system"@, content: SUMMARY_SYSTEM_PROMPT@ },
        user_message(prompt),
    ]
    &&& r.max_tokens == 150
    &&& r.temperature_tenths == 3
}

/// The cut point is a character boundary at most `end`, and no boundary lies
/// after it up to `end`.
pub proof fn lemma_char_cut(bytes: Seq<u8>, end: int)
    requires
        valid_utf8(bytes),
        0 <= end <= bytes.len(),
    ensures
        0 <= char_cut(bytes, end) <= end,
        is_char_boundary(bytes, char_cut(bytes, end)),
        forall|k: int| char_cut(bytes, end) < k <= end ==> !is_char_boundary(bytes, k),
    decreases end,
{
    if end > 0 && !is_char_boundary(bytes, end) {
        lemma_char_cut(bytes, end - 1);
    }
}

/// Appends `m` to `history` and keeps only its last `n` messages.
fn push_bounded(history: &mut Vec<Message>, m: Message, n: usize)
    ensures
        messages_view(final(history)@) == keep_last(messages_view(old(history)@).push(m@), n as nat),
{
    let ghost pushed = old(history)@.push(m);
    history.push(m);
    assert(messages_view(history@) =~= messages_view(old(history)@).push(m@));
    if history.len() > n {
        let overflow = history.len() - n;
        let tail = history.split_off(overflow);
        *history = tail;
        assert(messages_view(history@) =~= messages_view(pushed).subrange(
            pushed.len() - n,
            pushed.len() as int,
        ));
    }
}

fn limit_message(limit: usize, used: usize) -> (r: String)
    ensures
        r@ == limit_text(limit, used),
{
    let mut s = String::from_str("Token limit of ");
    push_decimal(&mut s, limit as u64);
    s.append(" reached. Current usage: ");
    push_decimal(&mut s, used as u64);
    s
}

/// The command output as a summary request carries it.
pub fn truncate_output(output: &str) -> (r: String)
    ensures
        r@ == truncated_output(output@),
{
    let ghost bytes = encode_utf8(output@);
    proof {
        assert(output.spec_bytes() == bytes);
    }
    let byte_len = output.as_bytes().len();
    if byte_len > SUMMARY_OUTPUT_BYTES {
        let mut end: usize = SUMMARY_OUTPUT_BYTES;
        while end > 0 && !output.is_char_boundary(end)
            invariant
                end <= SUMMARY_OUTPUT_BYTES,
                SUMMARY_OUTPUT_BYTES < bytes.len(),
                bytes == output.spec_bytes(),
                char_cut(bytes, SUMMARY_OUTPUT_BYTES as int) == char_cut(bytes, end as int),
            decreases end,
        {
            end = end - 1;
        }
        proof {
            lemma_char_cut(bytes, SUMMARY_OUTPUT_BYTES as int);
            assert(char_cut(bytes, end as int) == end);
        }
        let (head, _rest) = output.split_at(end);
        proof {
            assert(head.spec_bytes() == bytes.subrange(0, end as int));
            assert(head@ == decode_utf8(encode_utf8(head@)));
            assert(head@ == decode_utf8(bytes.subrange(0, end as int)));
        }
        let r = String::from_str(head).concat(TRUNCATION_MARK);
        assert(r@ == head@ + TRUNCATION_MARK@);
        r
    } else {
        String::from_str(output)
    }
}

impl Agent {
    /// An agent with an empty conversation, no tokens used and an allowance of
    /// one million tokens.
    pub fn new(llm: Llm, tools: Vec<Tool>, max_iterations: u32) -> (a: Self)
        ensures
            a.llm == llm,
            a.tools == tools,
            a.history@.len() == 0,
            a.max_iterations == max_iterations,
            a.total_tokens_used == 0,
            a.token_limit == DEFAULT_TOKEN_LIMIT,
    {
        Agent {
            llm,
            tools,
            history: Vec::new(),
            max_iterations,
            total_tokens_used: 0,
            token_limit: DEFAULT_TOKEN_LIMIT,
        }
    }

    /// The first half of planning: refuses when the allowance is spent or the
    /// request is blank, leaving the agent as it was; else records the planning
    /// prompt as a user message, keeps the last three messages, and gives the
    /// request to send to the model.
    pub fn begin_think(&mut self, user_request: &str) -> (r: Result<ChatRequest, AgentError>)
        ensures
            budget_spent(old(self).total_tokens_used, old(self).token_limit) ==> {
                &&& is_rate_limit_error(
                    r,
                    limit_text(old(self).token_limit, old(self).total_tokens_used),
                )
                &&& *final(self) == *old(self)
            },
            !budget_spent(old(self).total_tokens_used, old(self).token_limit) && is_blank(
                user_request@,
            ) ==> {
                &&& is_input_error(r, "User request cannot be empty"@)
                &&& *final(self) == *old(self)
            },
            !budget_spent(old(self).total_tokens_used, old(self).token_limit) && !is_blank(
                user_request@,
            ) ==> {
                &&& messages_view(final(self).history@) == keep_last(
                    messages_view(old(self).history@).push(
                        user_message(think_prompt(user_request@)),
                    ),
                    THINK_WINDOW as nat,
                )
                &&& same_settings(*final(self), *old(self))
                &&& final(self).total_tokens_used == old(self).total_tokens_used
                &&& r matches Ok(req) && is_tasks_request(
                    req,
                    final(self).llm@,
                    messages_view(final(self).history@),
                )
            },
    {
        if self.total_tokens_used >= self.token_limit {
            return Err(
                AgentError::RateLimitExceeded(
                    limit_message(self.token_limit, self.total_tokens_used),
                ),
            );
        }
        if is_blank_str(user_request) {
            return Err(AgentError::InvalidInput(String::from_str("User request cannot be empty")));
        }
        let prompt = String::from_str(THINK_PROMPT_HEAD).concat(user_request).concat(
            THINK_PROMPT_TAIL,
        );
        let m = Message { role: String::from_str("user"), content: prompt };
        push_bounded(&mut self.history, m, THINK_WINDOW);
        Ok(self.llm.tasks_request(&self.history))
    }

    /// The second half of planning: the tasks the model's reply gives, with
    /// the tokens it used added to the agent's count. A failed reply is a model
    /// error and changes nothing.
    pub fn finish_think(&mut self, reply: ChatReply) -> (r: Result<Vec<Task>, AgentError>)
        requires
            reply_error_text(reply) is None ==> old(self).total_tokens_used + reply_tokens(reply)
                <= usize::MAX,
        ensures
            reply_error_text(reply) matches Some(m) ==> is_llm_error(r, m) && *final(self)
                == *old(self),
            reply_error_text(reply) is None ==> {
                &&& *final(self) == (Agent {
                    total_tokens_used: (old(self).total_tokens_used + reply_tokens(
                        reply,
                    )) as usize,
                    ..*old(self)
                })
                &&& r matches Ok(tasks) && tasks@.len() == 1 && tasks@[0]@ == command_task(
                    reply_command(reply_content(reply)).0,
                    reply_command(reply_content(reply)).1,
                )
            },
    {
        match self.llm.generate_tasks(reply) {
            Ok((tasks, tokens)) => {
                self.total_tokens_used = self.total_tokens_used + tokens;
                Ok(tasks)
            },
            Err(e) => Err(e),
        }
    }

    /// Acting: refuses when the allowance is spent or the request is blank;
    /// else gives the model's action for the request. The agent is not changed.
    pub fn act(&mut self, user_request: &str, _tasks: Vec<Task>, _tool: &Tool) -> (r: Result<
        ToolResult,
        AgentError,
    >)
        ensures
            *final(self) == *old(self),
            budget_spent(old(self).total_tokens_used, old(self).token_limit) ==> is_rate_limit_error(
                r,
                limit_text(old(self).token_limit, old(self).total_tokens_used),
            ),
            !budget_spent(old(self).total_tokens_used, old(self).token_limit) && is_blank(
                user_request@,
            ) ==> is_input_error(r, "User request cannot be empty"@),
            !budget_spent(old(self).total_tokens_used, old(self).token_limit) && !is_blank(
                user_request@,
            ) ==> (r matches Ok(res) && res@ == (ToolResultView {
                status: "0"@,
                output: Seq::empty(),
                error: Seq::empty(),
            })),
    {
        if self.total_tokens_used >= self.token_limit {
            return Err(
                AgentError::RateLimitExceeded(
                    limit_message(self.token_limit, self.total_tokens_used),
                ),
            );
        }
        if is_blank_str(user_request) {
            return Err(AgentError::InvalidInput(String::from_str("User request cannot be empty")));
        }
        let prompt = String::from_str("You are a helpful assistant.\nUser request: ").concat(
            user_request,
        ).concat("\n\nThink about what needs to be done.");
        self.llm.generate_action(prompt.as_str())
    }

    /// The first half of summarizing: refuses when the allowance is spent;
    /// else gives the request that asks the model to summarize `output` of
    /// `command`, the output cut to 600 bytes.
    pub fn begin_summary(&self, command: &str, output: &str) -> (r: Result<
        ChatRequest,
        AgentError,
    >)
        ensures
            budget_spent(self.total_tokens_used, self.token_limit) ==> is_rate_limit_error(
                r,
                limit_text(self.token_limit, self.total_tokens_used),
            ),
            !budget_spent(self.total_tokens_used, self.token_limit) ==> (r matches Ok(req)
                && is_summary_request(
                req,
                self.llm@,
                summary_prompt(command@, truncated_output(output@)),
            )),
    {
        if self.total_tokens_used >= self.token_limit {
            return Err(
                AgentError::RateLimitExceeded(
                    limit_message(self.token_limit, self.total_tokens_used),
                ),
            );
        }
        let truncated = truncate_output(output);
        let prompt = String::from_str("Command executed: `").concat(command).concat(
            "`\nOutput:\n",
        ).concat(truncated.as_str()).concat(
            "\n\nProvide a very short, beautifully formatted summary of this output.",
        );
        Ok(self.llm.summary_request(prompt.as_str()))
    }

    /// The second half of summarizing: the summary in the model's reply, with
    /// the tokens it used added to the count and the summary recorded as an
    /// assistant message, keeping the last ten messages. A failed reply is a
    /// model error and changes nothing.
    pub fn finish_summary(&mut self, reply: ChatReply) -> (r: Result<String, AgentError>)
        requires
            reply_error_text(reply) is None ==> old(self).total_tokens_used + reply_tokens(reply)
                <= usize::MAX,
        ensures
            reply_error_text(reply) matches Some(m) ==> is_llm_error(r, m) && *final(self)
                == *old(self),
            reply_error_text(reply) is None ==> {
                &&& same_settings(*final(self), *old(self))
                &&& final(self).total_tokens_used == old(self).total_tokens_used + reply_tokens(
                    reply,
                )
                &&& messages_view(final(self).history@) == keep_last(
                    messages_view(old(self).history@).push(
                        assistant_message(reply_content(reply)),
                    ),
                    SUMMARY_WINDOW as nat,
                )
                &&& r matches Ok(summary) && summary@ == reply_content(reply)
            },
    {
        match self.llm.generate_summary(reply) {
            Ok((summary, tokens)) => {
                self.total_tokens_used = self.total_tokens_used + tokens;
                let m = Message { role: String::from_str("assistant"), content: summary.clone() };
                push_bounded(&mut self.history, m, SUMMARY_WINDOW);
                Ok(summary)
            },
            Err(e) => Err(e),
        }
    }
}

} // verus!
