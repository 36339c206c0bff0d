use smart_shell::error::AgentError;
use smart_shell::llm::{parse_command_reply, ChatReply, Llm, Message, SUMMARY_SYSTEM_PROMPT};
use smart_shell::task::TaskStatus;

fn llm() -> Llm {
    Llm::new("https://example.test/v1/chat".to_string(), "m1".to_string(), "k3y".to_string())
}

fn completed(tokens: Option<u64>, content: &str) -> ChatReply {
    ChatReply::Completed { total_tokens: tokens, content: Some(content.to_string()) }
}

fn llm_error_text<T: std::fmt::Debug>(r: Result<T, AgentError>) -> String {
    match r {
        Err(AgentError::LlmError(m)) => m,
        other => panic!("expected a model error, got {:?}", other),
    }
}

#[test]
fn command_and_flag_lines() {
    assert_eq!(parse_command_reply("CMD: ls -la\nHIL: false"), ("ls -la".to_string(), false));
}

#[test]
fn crlf_lines_and_case_of_true() {
    assert_eq!(parse_command_reply("CMD:  df -h  \r\nHIL: TRUE\r\n"), ("df -h".to_string(), true));
}

#[test]
fn indented_directives_count() {
    assert_eq!(
        parse_command_reply("Sure!\n   CMD: echo hi\n\tHIL: false  "),
        ("echo hi".to_string(), false)
    );
}

#[test]
fn flag_defaults_to_confirmation() {
    assert_eq!(parse_command_reply("CMD: uname -a"), ("uname -a".to_string(), true));
}

#[test]
fn anything_but_true_clears_the_flag() {
    assert_eq!(parse_command_reply("CMD: rm x\nHIL: yes"), ("rm x".to_string(), false));
}

#[test]
fn last_command_line_wins() {
    assert_eq!(
        parse_command_reply("CMD: ls\nHIL: false\nCMD: pwd"),
        ("pwd".to_string(), false)
    );
}

#[test]
fn plain_reply_is_the_command_without_backticks() {
    assert_eq!(parse_command_reply("  `rm -rf build`\n"), ("rm -rf build".to_string(), true));
    assert_eq!(parse_command_reply("```\nls```"), ("ls".to_string(), true));
}

#[test]
fn empty_command_line_falls_back_to_whole_reply() {
    assert_eq!(
        parse_command_reply("CMD:\nHIL: false"),
        ("CMD:\nHIL: false".to_string(), false)
    );
    assert_eq!(parse_command_reply("CMD: ls\nCMD:   "), ("CMD: ls\nCMD:".to_string(), true));
}

#[test]
fn lowercase_tag_is_not_a_directive() {
    assert_eq!(parse_command_reply("cmd: ls"), ("cmd: ls".to_string(), true));
}

#[test]
fn empty_reply_gives_empty_command() {
    assert_eq!(parse_command_reply(""), ("".to_string(), true));
}

#[test]
fn generated_task_fields() {
    let (tasks, tokens) = llm().generate_tasks(completed(Some(42), "CMD: ls\nHIL: false")).unwrap();
    assert_eq!(tokens, 42);
    assert_eq!(tasks.len(), 1);
    let t = &tasks[0];
    assert_eq!(t.id, "1");
    assert_eq!(t.title, "Generated Command");
    assert_eq!(t.description, "Direct command execution");
    assert_eq!(t.tool_to_use, vec!["shell".to_string()]);
    assert_eq!(t.command, "ls");
    assert_eq!(t.priority, 1);
    assert!(!t.human_in_loop);
    assert_eq!(t.status, TaskStatus::Pending);
}

#[test]
fn missing_token_count_is_zero() {
    let (_, tokens) = llm().generate_tasks(completed(None, "ls")).unwrap();
    assert_eq!(tokens, 0);
}

#[test]
fn reply_without_content_is_an_error() {
    let r = llm().generate_tasks(ChatReply::Completed { total_tokens: Some(3), content: None });
    assert_eq!(llm_error_text(r), "No content field in LLM response");
}

#[test]
fn rejected_request_reports_status_and_body() {
    let r = llm().generate_tasks(ChatReply::Rejected {
        status: "404 Not Found".to_string(),
        body: "no such model".to_string(),
    });
    assert_eq!(llm_error_text(r), "Request failed 404 Not Found: no such model");
}

#[test]
fn failed_request_reports_reason() {
    let r = llm().generate_summary(ChatReply::Failed("connection refused".to_string()));
    assert_eq!(llm_error_text(r), "connection refused");
}

#[test]
fn summary_reply() {
    let (s, tokens) = llm().generate_summary(completed(Some(9), " Two files. ")).unwrap();
    assert_eq!(s, " Two files. ");
    assert_eq!(tokens, 9);
}

#[test]
fn tasks_request_carries_endpoint_and_conversation() {
    let history = vec![Message { role: "user".to_string(), content: "hi".to_string() }];
    let req = llm().tasks_request(&history);
    assert_eq!(req.url, "https://example.test/v1/chat");
    assert_eq!(req.authorization, "Bearer k3y");
    assert_eq!(req.model, "m1");
    assert_eq!(req.messages.len(), 1);
    assert_eq!(req.messages[0].role, "user");
    assert_eq!(req.messages[0].content, "hi");
    assert_eq!(req.max_tokens, 2048);
    assert_eq!(req.temperature_tenths, 7);
}

#[test]
fn summary_request_has_system_and_user_messages() {
    let req = llm().summary_request("P");
    assert_eq!(req.messages.len(), 2);
    assert_eq!(req.messages[0].role, "system");
    assert_eq!(req.messages[0].content, SUMMARY_SYSTEM_PROMPT);
    assert_eq!(req.messages[1].role, "user");
    assert_eq!(req.messages[1].content, "P");
    assert_eq!(req.max_tokens, 150);
    assert_eq!(req.temperature_tenths, 3);
}

#[test]
fn action_is_an_empty_success() {
    let r = llm().generate_action("anything").unwrap();
    assert_eq!(r.status, "0");
    assert_eq!(r.output, "");
    assert_eq!(r.error, "");
}
