use smart_shell::error::AgentError;
use smart_shell::task::{Task, TaskStatus};

fn task_error_text(r: Result<(), AgentError>) -> String {
    match r {
        Err(AgentError::TaskError(m)) => m,
        other => panic!("expected a task error, got {:?}", other),
    }
}

#[test]
fn new_task_is_empty_and_pending() {
    let t = Task::new();
    assert_eq!(t.id, "");
    assert_eq!(t.title, "");
    assert_eq!(t.description, "");
    assert!(t.tool_to_use.is_empty());
    assert_eq!(t.command, "");
    assert_eq!(t.priority, 0);
    assert!(!t.human_in_loop);
    assert_eq!(t.status, TaskStatus::Pending);
}

#[test]
fn command_update_reads_back() {
    let mut t = Task::new();
    assert!(t.update_task_command("ls -la".to_string()).is_ok());
    assert_eq!(t.command, "ls -la");
}

#[test]
fn blank_command_is_refused_and_task_kept() {
    let mut t = Task::new();
    t.update_task_command("pwd".to_string()).unwrap();
    let r = t.update_task_command(" \t\r\n ".to_string());
    assert_eq!(task_error_text(r), "Command cannot be empty");
    assert_eq!(t.command, "pwd");
}

#[test]
fn unicode_space_counts_as_blank() {
    let mut t = Task::new();
    let r = t.update_task_title("\u{3000}\u{00a0}\u{2009}".to_string());
    assert_eq!(task_error_text(r), "Title cannot be empty");
    assert_eq!(t.title, "");
}

#[test]
fn empty_string_is_refused() {
    let mut t = Task::new();
    assert_eq!(task_error_text(t.update_task_id(String::new())), "ID cannot be empty");
}

#[test]
fn text_with_spaces_is_kept_untrimmed() {
    let mut t = Task::new();
    t.update_task_description("  list files  ".to_string()).unwrap();
    assert_eq!(t.description, "  list files  ");
}

#[test]
fn description_title_id_updates() {
    let mut t = Task::new();
    t.update_task_description("Show files".to_string()).unwrap();
    t.update_task_title("List".to_string()).unwrap();
    t.update_task_id("7".to_string()).unwrap();
    assert_eq!(t.description, "Show files");
    assert_eq!(t.title, "List");
    assert_eq!(t.id, "7");
    assert_eq!(
        task_error_text(t.update_task_description("".to_string())),
        "Description cannot be empty"
    );
    assert_eq!(t.description, "Show files");
}

#[test]
fn empty_tool_list_is_refused() {
    let mut t = Task::new();
    assert_eq!(task_error_text(t.update_task_tool_to_use(vec![])), "Tool list cannot be empty");
    assert!(t.tool_to_use.is_empty());
    t.update_task_tool_to_use(vec!["shell".to_string(), "editor".to_string()]).unwrap();
    assert_eq!(t.tool_to_use, vec!["shell".to_string(), "editor".to_string()]);
}

#[test]
fn priority_bound_is_ten() {
    let mut t = Task::new();
    assert!(t.update_task_priority(10).is_ok());
    assert_eq!(t.priority, 10);
    assert_eq!(task_error_text(t.update_task_priority(11)), "Priority cannot exceed 10");
    assert_eq!(t.priority, 10);
    assert!(t.update_task_priority(0).is_ok());
    assert_eq!(t.priority, 0);
    assert!(t.update_task_priority(u32::MAX).is_err());
    assert_eq!(t.priority, 0);
}

#[test]
fn status_and_confirmation_updates() {
    let mut t = Task::new();
    t.update_task_status(TaskStatus::Completed);
    assert_eq!(t.status, TaskStatus::Completed);
    t.update_task_status(TaskStatus::Failed);
    assert_eq!(t.status, TaskStatus::Failed);
    t.update_task_human_in_loop(true);
    assert!(t.human_in_loop);
}

#[test]
fn error_messages_name_their_kind() {
    assert_eq!(AgentError::InvalidInput("x".to_string()).to_message(), "Invalid input: x");
    assert_eq!(AgentError::LlmError("y".to_string()).to_message(), "LLM processing error: y");
    assert_eq!(AgentError::TaskError("z".to_string()).to_message(), "Task error: z");
    assert_eq!(
        AgentError::RateLimitExceeded("w".to_string()).to_message(),
        "Rate limit exceeded: w"
    );
}
