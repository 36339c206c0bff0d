//! Planned tasks and their checked updates.
use vstd::prelude::*;
use vstd::string::*;

use crate::error::{is_task_error, AgentError};
use crate::text::{is_blank, is_blank_str};

verus! {

/// Where a task stands.
#[derive(Debug, Clone, Copy, PartialEq, Eq, Structural)]
pub enum TaskStatus {
    Pending,
    Completed,
    Failed,
}

/// One step of a plan: a shell command with its description and settings.
#[derive(Debug, Clone)]
pub struct Task {
    pub id: String,
    pub title: String,
    pub description: String,
    pub tool_to_use: Vec<String>,
    pub command: String,
    pub priority: u32,
    pub human_in_loop: bool,
    pub status: TaskStatus,
}

/// A task as plain values.
pub struct TaskView {
    pub id: Seq<char>,
    pub title: Seq<char>,
    pub description: Seq<char>,
    pub tool_to_use: Seq<Seq<char>>,
    pub command: Seq<char>,
    pub priority: u32,
    pub human_in_loop: bool,
    pub status: TaskStatus,
}

/// The views of a list of strings.
pub open spec fn strings_view(v: Seq<String>) -> Seq<Seq<char>> {
    v.map_values(|s: String| s@)
}

impl View for Task {
    type V = TaskView;

    open spec fn view(&self) -> TaskView {
        TaskView {
            id: self.id@,
            title: self.title@,
            description: self.description@,
            tool_to_use: strings_view(self.tool_to_use@),
            command: self.command@,
            priority: self.priority,
            human_in_loop: self.human_in_loop,
            status: self.status,
        }
    }
}

/// The highest priority a task accepts.
pub const MAX_PRIORITY: u32 = 10;

/// A fresh task: every text empty, no tools, priority 0, no human in the loop, pending.
pub open spec fn empty_task() -> TaskView {
    TaskView {
        id: Seq::empty(),
        title: Seq::empty(),
        description: Seq::empty(),
        tool_to_use: Seq::empty(),
        command: Seq::empty(),
        priority: 0,
        human_in_loop: false,
        status: TaskStatus::Pending,
    }
}

/// `t` with its command set to `c`, unless `c` is blank.
pub open spec fn with_command(t: TaskView, c: Seq<char>) -> TaskView {
    if is_blank(c) {
        t
    } else {
        TaskView { command: c, ..t }
    }
}

/// `t` with its tool list set to `tools`, unless the list is empty.
pub open spec fn with_tools(t: TaskView, tools: Seq<Seq<char>>) -> TaskView {
    if tools.len() == 0 {
        t
    } else {
        TaskView { tool_to_use: tools, ..t }
    }
}

/// `t` with its priority set to `p`, unless `p` exceeds the highest priority.
pub open spec fn with_priority(t: TaskView, p: u32) -> TaskView {
    if p > MAX_PRIORITY {
        t
    } else {
        TaskView { priority: p, ..t }
    }
}

/// `t` with its description set to `d`, unless `d` is blank.
pub open spec fn with_description(t: TaskView, d: Seq<char>) -> TaskView {
    if is_blank(d) {
        t
    } else {
        TaskView { description: d, ..t }
    }
}

/// `t` with its title set to `s`, unless `s` is blank.
pub open spec fn with_title(t: TaskView, s: Seq<char>) -> TaskView {
    if is_blank(s) {
        t
    } else {
        TaskView { title: s, ..t }
    }
}

/// `t` with its id set to `i`, unless `i` is blank.
pub open spec fn with_id(t: TaskView, i: Seq<char>) -> TaskView {
    if is_blank(i) {
        t
    } else {
        TaskView { id: i, ..t }
    }
}

impl Task {
    /// A task with empty texts, no tools, priority 0, no human in the loop, pending.
    pub fn new() -> (t: Self)
        ensures
            t@ == empty_task(),
    {
        let t = Task {
            id: String::new(),
            title: String::new(),
            description: String::new(),
            tool_to_use: Vec::new(),
            command: String::new(),
            priority: 0,
            human_in_loop: false,
            status: TaskStatus::Pending,
        };
        assert(strings_view(t.tool_to_use@) =~= Seq::<Seq<char>>::empty());
        t
    }

    /// Sets the status.
    pub fn update_task_status(&mut self, status: TaskStatus)
        ensures
            final(self)@ == (TaskView { status: status, ..old(self)@ }),
    {
        self.status = status;
    }

    /// Sets the command; a blank command is refused and the task kept as it was.
    pub fn update_task_command(&mut self, command: String) -> (r: Result<(), AgentError>)
        ensures
            r is Ok <==> !is_blank(command@),
            r is Err ==> is_task_error(r, "Command cannot be empty"@),
            final(self)@ == with_command(old(self)@, command@),
    {
        if is_blank_str(command.as_str()) {
            return Err(AgentError::TaskError(String::from_str("Command cannot be empty")));
        }
        self.command = command;
        Ok(())
    }

    /// Sets whether a human confirms the task.
    pub fn update_task_human_in_loop(&mut self, human_in_loop: bool)
        ensures
            final(self)@ == (TaskView { human_in_loop: human_in_loop, ..old(self)@ }),
    {
        self.human_in_loop = human_in_loop;
    }

    /// Sets the tool list; an empty list is refused and the task kept as it was.
    pub fn update_task_tool_to_use(&mut self, tool_to_use: Vec<String>) -> (r: Result<
        (),
        AgentError,
    >)
        ensures
            r is Ok <==> tool_to_use@.len() > 0,
            r is Err ==> is_task_error(r, "Tool list cannot be empty"@),
            final(self)@ == with_tools(old(self)@, strings_view(tool_to_use@)),
    {
        if tool_to_use.len() == 0 {
            return Err(AgentError::TaskError(String::from_str("Tool list cannot be empty")));
        }
        self.tool_to_use = tool_to_use;
        Ok(())
    }

    /// Sets the priority; one above 10 is refused and the task kept as it was.
    pub fn update_task_priority(&mut self, priority: u32) -> (r: Result<(), AgentError>)
        ensures
            r is Ok <==> priority <= MAX_PRIORITY,
            r is Err ==> is_task_error(r, "Priority cannot exceed 10"@),
            final(self)@ == with_priority(old(self)@, priority),
    {
        if priority > MAX_PRIORITY {
            return Err(AgentError::TaskError(String::from_str("Priority cannot exceed 10")));
        }
        self.priority = priority;
        Ok(())
    }

    /// Sets the description; a blank one is refused and the task kept as it was.
    pub fn update_task_description(&mut self, description: String) -> (r: Result<
        (),
        AgentError,
    >)
        ensures
            r is Ok <==> !is_blank(description@),
            r is Err ==> is_task_error(r, "Description cannot be empty"@),
            final(self)@ == with_description(old(self)@, description@),
    {
        if is_blank_str(description.as_str()) {
            return Err(AgentError::TaskError(String::from_str("Description cannot be empty")));
        }
        self.description = description;
        Ok(())
    }

    /// Sets the title; a blank one is refused and the task kept as it was.
    pub fn update_task_title(&mut self, title: String) -> (r: Result<(), AgentError>)
        ensures
            r is Ok <==> !is_blank(title@),
            r is Err ==> is_task_error(r, "Title cannot be empty"@),
            final(self)@ == with_title(old(self)@, title@),
    {
        if is_blank_str(title.as_str()) {
            return Err(AgentError::TaskError(String::from_str("Title cannot be empty")));
        }
        self.title = title;
        Ok(())
    }

    /// Sets the id; a blank one is refused and the task kept as it was.
    pub fn update_task_id(&mut self, id: String) -> (r: Result<(), AgentError>)
        ensures
            r is Ok <==> !is_blank(id@),
            r is Err ==> is_task_error(r, "ID cannot be empty"@),
            final(self)@ == with_id(old(self)@, id@),
    {
        if is_blank_str(id.as_str()) {
            return Err(AgentError::TaskError(String::from_str("ID cannot be empty")));
        }
        self.id = id;
        Ok(())
    }
}

} // verus!
