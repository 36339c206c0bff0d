use smart_shell::agent::{truncate_output, Agent, DEFAULT_TOKEN_LIMIT, THINK_PROMPT_HEAD, THINK_PROMPT_TAIL};
use smart_shell::error::AgentError;
use smart_shell::llm::{ChatReply, Llm};
use smart_shell::tool::Tool;

fn agent() -> Agent {
    Agent::new(
        Llm::new("http://localhost/chat".to_string(), "tiny".to_string(), "secret".to_string()),
        vec![Tool {
            name: "shell".to_string(),
            description: "Execute bash commands in the system shell".to_string(),
            is_human_in_loop: true,
            command: "".to_string(),
        }],
        5,
    )
}

fn reply(tokens: u64, content: &str) -> ChatReply {
    ChatReply::Completed { total_tokens: Some(tokens), content: Some(content.to_string()) }
}

fn shell() -> Tool {
    Tool { name: "shell".to_string(), description: String::new(), is_human_in_loop: false, command: String::new() }
}

#[test]
fn new_agent_defaults() {
    let a = agent();
    assert!(a.history.is_empty());
    assert_eq!(a.total_tokens_used, 0);
    assert_eq!(a.token_limit, 1_000_000);
    assert_eq!(a.token_limit, DEFAULT_TOKEN_LIMIT);
    assert_eq!(a.max_iterations, 5);
    assert_eq!(a.tools.len(), 1);
}

#[test]
fn think_records_prompt_and_builds_request() {
    let mut a = agent();
    let req = a.begin_think("list files").unwrap();
    assert_eq!(a.history.len(), 1);
    assert_eq!(a.history[0].role, "user");
    let expected = format!("{}list files{}", THINK_PROMPT_HEAD, THINK_PROMPT_TAIL);
    assert_eq!(a.history[0].content, expected);
    assert!(a.history[0].content.starts_with("You are a fast Linux shell AI. User request: list files\n\nReturn exactly ONE bash command"));
    assert!(a.history[0].content.ends_with("CMD: rm -rf build\nHIL: true"));
    assert_eq!(req.url, "http://localhost/chat");
    assert_eq!(req.authorization, "Bearer secret");
    assert_eq!(req.model, "tiny");
    assert_eq!(req.messages.len(), 1);
    assert_eq!(req.messages[0].content, expected);
}

#[test]
fn think_keeps_three_messages() {
    let mut a = agent();
    for i in 0..5 {
        a.begin_think(&format!("request {}", i)).unwrap();
    }
    assert_eq!(a.history.len(), 3);
    assert!(a.history[0].content.contains("request 2"));
    assert!(a.history[2].content.contains("request 4"));
}

#[test]
fn blank_request_is_refused_and_agent_kept() {
    let mut a = agent();
    match a.begin_think("  \n ") {
        Err(AgentError::InvalidInput(m)) => assert_eq!(m, "User request cannot be empty"),
        other => panic!("unexpected {:?}", other.is_ok()),
    }
    assert!(a.history.is_empty());
}

#[test]
fn spent_allowance_refuses_every_request() {
    let mut a = agent();
    a.total_tokens_used = 1_000_000;
    let expected = "Token limit of 1000000 reached. Current usage: 1000000";
    match a.begin_think("ls") {
        Err(AgentError::RateLimitExceeded(m)) => assert_eq!(m, expected),
        _ => panic!("expected a rate-limit error"),
    }
    assert!(a.history.is_empty());
    match a.act("ls", vec![], &shell()) {
        Err(AgentError::RateLimitExceeded(m)) => assert_eq!(m, expected),
        _ => panic!("expected a rate-limit error"),
    }
    match a.begin_summary("ls", "out") {
        Err(AgentError::RateLimitExceeded(m)) => assert_eq!(m, expected),
        _ => panic!("expected a rate-limit error"),
    }
}

#[test]
fn limit_is_checked_before_blankness() {
    let mut a = agent();
    a.token_limit = 10;
    a.total_tokens_used = 25;
    match a.begin_think("") {
        Err(AgentError::RateLimitExceeded(m)) => {
            assert_eq!(m, "Token limit of 10 reached. Current usage: 25")
        }
        _ => panic!("expected a rate-limit error"),
    }
}

#[test]
fn finished_think_counts_tokens() {
    let mut a = agent();
    a.begin_think("disk usage").unwrap();
    let tasks = a.finish_think(reply(120, "CMD: df -h\nHIL: false")).unwrap();
    assert_eq!(tasks.len(), 1);
    assert_eq!(tasks[0].command, "df -h");
    assert!(!tasks[0].human_in_loop);
    assert_eq!(a.total_tokens_used, 120);
    a.begin_think("again").unwrap();
    a.finish_think(reply(30, "ls")).unwrap();
    assert_eq!(a.total_tokens_used, 150);
    assert_eq!(a.history.len(), 2);
}

#[test]
fn failed_think_changes_nothing() {
    let mut a = agent();
    a.begin_think("x").unwrap();
    let r = a.finish_think(ChatReply::Rejected { status: "500 Internal Server Error".to_string(), body: "".to_string() });
    match r {
        Err(AgentError::LlmError(m)) => assert_eq!(m, "Request failed 500 Internal Server Error: "),
        _ => panic!("expected a model error"),
    }
    assert_eq!(a.total_tokens_used, 0);
    assert_eq!(a.history.len(), 1);
}

#[test]
fn act_gives_empty_success() {
    let mut a = agent();
    let r = a.act("do it", vec![], &shell()).unwrap();
    assert_eq!(r.status, "0");
    assert_eq!(r.output, "");
    assert_eq!(r.error, "");
    match a.act("\t", vec![], &shell()) {
        Err(AgentError::InvalidInput(m)) => assert_eq!(m, "User request cannot be empty"),
        _ => panic!("expected an input error"),
    }
}

#[test]
fn summary_request_carries_short_output_whole() {
    let a = agent();
    let req = a.begin_summary("ls", "a\nb").unwrap();
    assert_eq!(req.messages.len(), 2);
    assert_eq!(req.messages[0].role, "system");
    assert_eq!(
        req.messages[1].content,
        "Command executed: `ls`\nOutput:\na\nb\n\nProvide a very short, beautifully formatted summary of this output."
    );
}

#[test]
fn long_output_is_cut_at_600_bytes() {
    let out = "a".repeat(700);
    let t = truncate_output(&out);
    assert_eq!(t, format!("{}...\n[TRUNCATED to save tokens]", "a".repeat(600)));
}

#[test]
fn output_of_exactly_600_bytes_is_whole() {
    let out = "b".repeat(600);
    assert_eq!(truncate_output(&out), out);
}

#[test]
fn cut_stays_between_characters() {
    // 'a' then 400 two-byte characters: byte 600 falls inside a character.
    let out = format!("a{}", "é".repeat(400));
    let t = truncate_output(&out);
    let kept = t.strip_suffix("...\n[TRUNCATED to save tokens]").unwrap();
    assert_eq!(kept.len(), 599);
    assert!(out.starts_with(kept));
    // four-byte characters: 600 is a boundary.
    let wide = "😀".repeat(200);
    let t2 = truncate_output(&wide);
    assert_eq!(t2, format!("{}...\n[TRUNCATED to save tokens]", "😀".repeat(150)));
    // four-byte characters shifted by one byte: cut at 597.
    let shifted = format!("x{}", "😀".repeat(200));
    let t3 = truncate_output(&shifted);
    assert_eq!(t3, format!("x{}...\n[TRUNCATED to save tokens]", "😀".repeat(149)));
}

#[test]
fn finished_summary_records_reply_and_keeps_ten() {
    let mut a = agent();
    for i in 0..12 {
        a.begin_summary("ls", "x").unwrap();
        let s = a.finish_summary(reply(1, &format!("summary {}", i))).unwrap();
        assert_eq!(s, format!("summary {}", i));
    }
    assert_eq!(a.history.len(), 10);
    assert_eq!(a.history[9].role, "assistant");
    assert_eq!(a.history[9].content, "summary 11");
    assert_eq!(a.history[0].content, "summary 2");
    assert_eq!(a.total_tokens_used, 12);
}

#[test]
fn failed_summary_changes_nothing() {
    let mut a = agent();
    let r = a.finish_summary(ChatReply::Completed { total_tokens: Some(5), content: None });
    assert!(matches!(r, Err(AgentError::LlmError(_))));
    assert!(a.history.is_empty());
    assert_eq!(a.total_tokens_used, 0);
}

#[test]
fn failed_reply_with_huge_token_count_changes_nothing() {
    let mut a = agent();
    a.total_tokens_used = 10;
    a.begin_think("x").unwrap();
    let r = a.finish_think(ChatReply::Completed { total_tokens: Some(u64::MAX), content: None });
    match r {
        Err(AgentError::LlmError(m)) => assert_eq!(m, "No content field in LLM response"),
        _ => panic!("expected a model error"),
    }
    assert_eq!(a.total_tokens_used, 10);
    let r = a.finish_summary(ChatReply::Completed { total_tokens: Some(u64::MAX), content: None });
    assert!(matches!(r, Err(AgentError::LlmError(_))));
    assert_eq!(a.total_tokens_used, 10);
    assert_eq!(a.history.len(), 1);
}
