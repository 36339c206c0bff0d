//! The error type shared by the task, model and agent operations.
use vstd::prelude::*;
use vstd::string::*;

verus! {

/// What went wrong in an agent operation.
#[derive(Debug)]
pub enum AgentError {
    InvalidInput(String),
    LlmError(String),
    TaskError(String),
    RateLimitExceeded(String),
}

/// The text that the error is displayed as.
pub open spec fn error_text(e: AgentError) -> Seq<char> {
    match e {
        AgentError::InvalidInput(m) => "Invalid input: "@ + m@,
        AgentError::LlmError(m) => "LLM processing error: "@ + m@,
        AgentError::TaskError(m) => "Task error: "@ + m@,
        AgentError::RateLimitExceeded(m) => "Rate limit exceeded: "@ + m@,
    }
}

/// Whether `r` is a task error carrying the message `msg`.
pub open spec fn is_task_error<T>(r: Result<T, AgentError>, msg: Seq<char>) -> bool {
    r matches Err(AgentError::TaskError(m)) && m@ == msg
}

/// Whether `r` is an input error carrying the message `msg`.
pub open spec fn is_input_error<T>(r: Result<T, AgentError>, msg: Seq<char>) -> bool {
    r matches Err(AgentError::InvalidInput(m)) && m@ == msg
}

/// Whether `r` is a model error carrying the message `msg`.
pub open spec fn is_llm_error<T>(r: Result<T, AgentError>, msg: Seq<char>) -> bool {
    r matches Err(AgentError::LlmError(m)) && m@ == msg
}

/// Whether `r` is a rate-limit error carrying the message `msg`.
pub open spec fn is_rate_limit_error<T>(r: Result<T, AgentError>, msg: Seq<char>) -> bool {
    r matches Err(AgentError::RateLimitExceeded(m)) && m@ == msg
}

impl AgentError {
    /// The text that the error is displayed as: its kind, a colon and its message.
    pub fn to_message(&self) -> (r: String)
        ensures
            r@ == error_text(*self),
    {
        match self {
            AgentError::InvalidInput(m) => String::from_str("Invalid input: ").concat(m.as_str()),
            AgentError::LlmError(m) => String::from_str("LLM processing error: ").concat(
                m.as_str(),
            ),
            AgentError::TaskError(m) => String::from_str("Task error: ").concat(m.as_str()),
            AgentError::RateLimitExceeded(m) => String::from_str("Rate limit exceeded: ").concat(
                m.as_str(),
            ),
        }
    }
}

} // verus!
